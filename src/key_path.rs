//! Key paths and their canonical text.
use vstd::prelude::*;
use crate::order::Term;
use crate::value::Value;

verus! {

/// A named field (`.name`) or a positional one (`.0`).
#[derive(Debug)]
pub enum NamedOrNumbered {
    Named(String),
    Numbered(usize),
}

/// One step of a key path.
#[derive(Debug)]
pub enum Key {
    /// `.name` or `.N`: a field of a struct, tuple, tuple struct or of a selected variant.
    Field(NamedOrNumbered),
    /// `[literal]`: an element of a list, or the entry of a map under that key.
    Get(Value),
    /// `::Name`: holds only where the enum's active variant has that name.
    Variant(String),
}

/// A sequence of keys, walked from left to right.
#[derive(Debug)]
pub struct KeyPath {
    pub path: Vec<Key>,
}

/// The mathematical form of a key.
pub enum KeyView {
    Field(Seq<char>),
    Position(nat),
    Get(Term),
    Variant(Seq<char>),
}

impl View for Key {
    type V = KeyView;

    open spec fn view(&self) -> KeyView {
        match self {
            Key::Field(NamedOrNumbered::Named(s)) => KeyView::Field(s@),
            Key::Field(NamedOrNumbered::Numbered(n)) => KeyView::Position(*n as nat),
            Key::Get(v) => KeyView::Get(v@),
            Key::Variant(s) => KeyView::Variant(s@),
        }
    }
}

pub open spec fn keys_view(p: Seq<Key>) -> Seq<KeyView> {
    Seq::new(p.len(), |j: int| p[j]@)
}

impl View for KeyPath {
    type V = Seq<KeyView>;

    open spec fn view(&self) -> Seq<KeyView> {
        keys_view(self.path@)
    }
}

impl KeyPath {
    /// The empty path, which addresses the value itself.
    pub fn new() -> (r: KeyPath)
        ensures
            r@ == Seq::<KeyView>::empty(),
    {
        let r = KeyPath { path: Vec::new() };
        assert(r@ =~= Seq::<KeyView>::empty());
        r
    }

    pub fn push(&mut self, key: Key)
        ensures
            final(self)@ == old(self)@.push(key@),
    {
        self.path.push(key);
        assert(final(self)@ =~= old(self)@.push(key@));
    }

    /// Appends `.name`.
    pub fn field(self, name: &str) -> (r: KeyPath)
        ensures
            r@ == self@.push(KeyView::Field(name@)),
    {
        let mut r = self;
        r.push(Key::Field(NamedOrNumbered::Named(name.to_owned())));
        r
    }

    /// Appends `.n`.
    pub fn position(self, n: usize) -> (r: KeyPath)
        ensures
            r@ == self@.push(KeyView::Position(n as nat)),
    {
        let mut r = self;
        r.push(Key::Field(NamedOrNumbered::Numbered(n)));
        r
    }

    /// Appends `[value]`.
    pub fn get(self, value: Value) -> (r: KeyPath)
        ensures
            r@ == self@.push(KeyView::Get(value@)),
    {
        let mut r = self;
        r.push(Key::Get(value));
        r
    }

    /// Appends `::name`.
    pub fn variant(self, name: &str) -> (r: KeyPath)
        ensures
            r@ == self@.push(KeyView::Variant(name@)),
    {
        let mut r = self;
        r.push(Key::Variant(name.to_owned()));
        r
    }
}

pub open spec fn digit_char(d: int) -> char {
    if d == 0 {
        '0'
    } else if d == 1 {
        '1'
    } else if d == 2 {
        '2'
    } else if d == 3 {
        '3'
    } else if d == 4 {
        '4'
    } else if d == 5 {
        '5'
    } else if d == 6 {
        '6'
    } else if d == 7 {
        '7'
    } else if d == 8 {
        '8'
    } else {
        '9'
    }
}

/// Decimal digits of a natural number, without leading zeros.
pub open spec fn decimal(n: nat) -> Seq<char>
    decreases n,
{
    if n < 10 {
        seq![digit_char(n as int)]
    } else {
        decimal(n / 10).push(digit_char((n % 10) as int))
    }
}

/// A string with `"` and `\` escaped by a backslash.
pub open spec fn escaped(s: Seq<char>) -> Seq<char>
    decreases s.len(),
{
    if s.len() == 0 {
        Seq::empty()
    } else {
        let c = s.last();
        escaped(s.drop_last()) + if c == '"' || c == '\\' {
            seq!['\\', c]
        } else {
            seq![c]
        }
    }
}

/// The suffix that marks the kind of an integer literal (kinds as tagged
/// by `value_term`); an `i32` literal has none.
pub open spec fn suffix_of_tag(t: int) -> Seq<char> {
    if t == 0 {
        seq!['u', 's', 'i', 'z', 'e']
    } else if t == 1 {
        seq!['u', '8']
    } else if t == 2 {
        seq!['u', '1', '6']
    } else if t == 3 {
        seq!['u', '3', '2']
    } else if t == 4 {
        seq!['u', '6', '4']
    } else if t == 5 {
        seq!['u', '1', '2', '8']
    } else if t == 6 {
        seq!['i', '8']
    } else if t == 7 {
        seq!['i', '1', '6']
    } else if t == 9 {
        seq!['i', '6', '4']
    } else if t == 10 {
        seq!['i', '1', '2', '8']
    } else {
        Seq::empty()
    }
}

/// An integer in base ten, with a leading `-` when negative.
pub open spec fn int_text(n: int) -> Seq<char> {
    if n < 0 {
        seq!['-'] + decimal((-n) as nat)
    } else {
        decimal(n as nat)
    }
}

/// A character with `'` and `\` escaped by a backslash.
pub open spec fn char_escaped(c: char) -> Seq<char> {
    if c == '\'' || c == '\\' {
        seq!['\\', c]
    } else {
        seq![c]
    }
}

/// The literal written between brackets for a value: an integer in base ten
/// followed by the suffix of its kind (`7usize`, `-1i64`; none for `i32`),
/// `true` or `false`, a character in single quotes, a string in double quotes
/// (quotes and backslashes escaped). Floats and aggregates have no literal
/// and are written `?`, which does not read back.
pub open spec fn literal_text(v: Value) -> Seq<char> {
    match v {
        Value::Usize(n) => int_text(n as int) + suffix_of_tag(0),
        Value::U8(n) => int_text(n as int) + suffix_of_tag(1),
        Value::U16(n) => int_text(n as int) + suffix_of_tag(2),
        Value::U32(n) => int_text(n as int) + suffix_of_tag(3),
        Value::U64(n) => int_text(n as int) + suffix_of_tag(4),
        Value::U128(n) => int_text(n as int) + suffix_of_tag(5),
        Value::I8(n) => int_text(n as int) + suffix_of_tag(6),
        Value::I16(n) => int_text(n as int) + suffix_of_tag(7),
        Value::I32(n) => int_text(n as int) + suffix_of_tag(8),
        Value::I64(n) => int_text(n as int) + suffix_of_tag(9),
        Value::I128(n) => int_text(n as int) + suffix_of_tag(10),
        Value::Bool(b) => if b {
            seq!['t', 'r', 'u', 'e']
        } else {
            seq!['f', 'a', 'l', 's', 'e']
        },
        Value::Char(c) => seq!['\''] + char_escaped(c) + seq!['\''],
        Value::Str(s) => seq!['"'] + escaped(s@) + seq!['"'],
        _ => seq!['?'],
    }
}

pub open spec fn key_text(k: Key) -> Seq<char> {
    match k {
        Key::Field(NamedOrNumbered::Named(s)) => seq!['.'] + s@,
        Key::Field(NamedOrNumbered::Numbered(n)) => seq!['.'] + decimal(n as nat),
        Key::Get(v) => seq!['['] + literal_text(v) + seq![']'],
        Key::Variant(s) => seq![':', ':'] + s@,
    }
}

/// The canonical text of the first `n` keys of a path.
pub open spec fn path_text(p: Seq<Key>, n: int) -> Seq<char>
    decreases n,
{
    if n <= 0 || n > p.len() {
        Seq::empty()
    } else {
        path_text(p, n - 1) + key_text(p[n - 1])
    }
}

/// Relies on `String::push`: appends one character.
#[verifier::external_body]
pub(crate) fn push_char(s: &mut String, c: char)
    ensures
        final(s)@ == old(s)@.push(c),
{
    s.push(c)
}

fn push_str(out: &mut String, s: &str)
    ensures
        final(out)@ == old(out)@ + s@,
{
    let n = s.unicode_len();
    let mut i: usize = 0;
    while i < n
        invariant
            i <= n,
            n == s@.len(),
            out@ == old(out)@ + s@.subrange(0, i as int),
        decreases n - i,
    {
        let c = s.get_char(i);
        push_char(out, c);
        assert(s@.subrange(0, i + 1) =~= s@.subrange(0, i as int).push(c));
        i = i + 1;
    }
    assert(s@.subrange(0, n as int) =~= s@);
}

fn digit(d: u128) -> (c: char)
    requires
        d < 10,
    ensures
        c == digit_char(d as int),
{
    if d == 0 {
        '0'
    } else if d == 1 {
        '1'
    } else if d == 2 {
        '2'
    } else if d == 3 {
        '3'
    } else if d == 4 {
        '4'
    } else if d == 5 {
        '5'
    } else if d == 6 {
        '6'
    } else if d == 7 {
        '7'
    } else if d == 8 {
        '8'
    } else {
        '9'
    }
}

fn push_decimal(out: &mut String, n: u128)
    ensures
        final(out)@ == old(out)@ + decimal(n as nat),
    decreases n,
{
    if n >= 10 {
        push_decimal(out, n / 10);
    }
    push_char(out, digit(n % 10));
    proof {
        if n >= 10 {
            assert((n / 10) as nat == (n as nat) / 10);
        }
    }
}

fn push_escaped(out: &mut String, s: &str)
    ensures
        final(out)@ == old(out)@ + escaped(s@),
{
    let n = s.unicode_len();
    let mut i: usize = 0;
    while i < n
        invariant
            i <= n,
            n == s@.len(),
            out@ == old(out)@ + escaped(s@.subrange(0, i as int)),
        decreases n - i,
    {
        let c = s.get_char(i);
        proof {
            let t = s@.subrange(0, i + 1);
            assert(t.drop_last() =~= s@.subrange(0, i as int));
            assert(t.last() == c);
        }
        if c == '"' || c == '\\' {
            push_char(out, '\\');
        }
        push_char(out, c);
        i = i + 1;
    }
    assert(s@.subrange(0, n as int) =~= s@);
}

fn push_suffix(out: &mut String, t: u8)
    requires
        t <= 10,
    ensures
        final(out)@ == old(out)@ + suffix_of_tag(t as int),
{
    if t == 0 {
        push_char(out, 'u');
        push_char(out, 's');
        push_char(out, 'i');
        push_char(out, 'z');
        push_char(out, 'e');
    } else if t <= 5 {
        push_char(out, 'u');
    } else if t != 8 {
        push_char(out, 'i');
    }
    if t == 1 || t == 6 {
        push_char(out, '8');
    } else if t == 2 || t == 7 {
        push_char(out, '1');
        push_char(out, '6');
    } else if t == 3 {
        push_char(out, '3');
        push_char(out, '2');
    } else if t == 4 || t == 9 {
        push_char(out, '6');
        push_char(out, '4');
    } else if t == 5 || t == 10 {
        push_char(out, '1');
        push_char(out, '2');
        push_char(out, '8');
    }
    assert(out@ =~= old(out)@ + suffix_of_tag(t as int));
}

fn push_int(out: &mut String, n: i128)
    ensures
        final(out)@ == old(out)@ + int_text(n as int),
{
    if n < 0 {
        push_char(out, '-');
        let m: u128 = ((-(n + 1)) as u128) + 1;
        push_decimal(out, m);
        assert(out@ =~= old(out)@ + int_text(n as int));
    } else {
        push_decimal(out, n as u128);
    }
}

fn push_unsigned(out: &mut String, n: u128, t: u8)
    requires
        t <= 10,
    ensures
        final(out)@ == old(out)@ + int_text(n as int) + suffix_of_tag(t as int),
{
    push_decimal(out, n);
    push_suffix(out, t);
}

fn push_signed(out: &mut String, n: i128, t: u8)
    requires
        t <= 10,
    ensures
        final(out)@ == old(out)@ + int_text(n as int) + suffix_of_tag(t as int),
{
    push_int(out, n);
    push_suffix(out, t);
}

fn push_literal(out: &mut String, v: &Value)
    ensures
        final(out)@ == old(out)@ + literal_text(*v),
{
    match v {
        Value::Usize(n) => push_unsigned(out, *n as u128, 0),
        Value::U8(n) => push_unsigned(out, *n as u128, 1),
        Value::U16(n) => push_unsigned(out, *n as u128, 2),
        Value::U32(n) => push_unsigned(out, *n as u128, 3),
        Value::U64(n) => push_unsigned(out, *n as u128, 4),
        Value::U128(n) => push_unsigned(out, *n, 5),
        Value::I8(n) => push_signed(out, *n as i128, 6),
        Value::I16(n) => push_signed(out, *n as i128, 7),
        Value::I32(n) => push_signed(out, *n as i128, 8),
        Value::I64(n) => push_signed(out, *n as i128, 9),
        Value::I128(n) => push_signed(out, *n, 10),
        Value::Bool(b) => {
            if *b {
                push_char(out, 't');
                push_char(out, 'r');
                push_char(out, 'u');
                push_char(out, 'e');
            } else {
                push_char(out, 'f');
                push_char(out, 'a');
                push_char(out, 'l');
                push_char(out, 's');
                push_char(out, 'e');
            }
            assert(out@ =~= old(out)@ + literal_text(*v));
        },
        Value::Char(c) => {
            push_char(out, '\'');
            if *c == '\'' || *c == '\\' {
                push_char(out, '\\');
            }
            push_char(out, *c);
            push_char(out, '\'');
            assert(out@ =~= old(out)@ + literal_text(*v));
        },
        Value::Str(s) => {
            push_char(out, '"');
            push_escaped(out, s.as_str());
            push_char(out, '"');
            assert(out@ =~= old(out)@ + (seq!['"'] + escaped(s@) + seq!['"']));
        },
        _ => push_char(out, '?'),
    }
}

fn push_key(out: &mut String, k: &Key)
    ensures
        final(out)@ == old(out)@ + key_text(*k),
{
    match k {
        Key::Field(NamedOrNumbered::Named(s)) => {
            push_char(out, '.');
            push_str(out, s.as_str());
            assert(out@ =~= old(out)@ + (seq!['.'] + s@));
        },
        Key::Field(NamedOrNumbered::Numbered(n)) => {
            push_char(out, '.');
            push_decimal(out, *n as u128);
            assert(out@ =~= old(out)@ + (seq!['.'] + decimal(*n as nat)));
        },
        Key::Get(v) => {
            push_char(out, '[');
            push_literal(out, v);
            push_char(out, ']');
            assert(out@ =~= old(out)@ + (seq!['['] + literal_text(*v) + seq![']']));
        },
        Key::Variant(s) => {
            push_char(out, ':');
            push_char(out, ':');
            push_str(out, s.as_str());
            assert(out@ =~= old(out)@ + (seq![':', ':'] + s@));
        },
    }
}

impl KeyPath {
    /// The canonical text of the path, e.g. `.a.0.b.c[1]["foo"]::D.e[3]`.
    pub fn to_string(&self) -> (r: String)
        ensures
            r@ == path_text(self.path@, self.path@.len() as int),
    {
        let mut out = String::new();
        let mut i: usize = 0;
        while i < self.path.len()
            invariant
                i <= self.path.len(),
                out@ == path_text(self.path@, i as int),
            decreases self.path.len() - i,
        {
            push_key(&mut out, &self.path[i]);
            i = i + 1;
        }
        out
    }
}

} // verus!
