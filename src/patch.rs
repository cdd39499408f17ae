//! Shape-tolerant in-place patching of values.
use vstd::prelude::*;
use crate::order::{Term, tag, children, term_cmp};
use crate::value::{
    Value, StructValue, TupleValue, TupleStructValue, EnumValue, VariantFields, value_term,
    list_terms, named_terms, entry_terms, variant_term, text_term,
};
use crate::resolve::{first_key, pair_key, pair_value, same_text, lemma_first_key_range};

verus! {

/// Patch of positional children: index `i` of `s` is patched with index `i`
/// of `r` where `r` has one; the rest stays.
pub open spec fn patch_seq(s: Seq<Term>, r: Seq<Term>) -> Seq<Term>
    decreases s, 0int,
{
    Seq::new(
        s.len(),
        |i: int|
            if 0 <= i < s.len() {
                if i < r.len() {
                    patch_term(s[i], r[i])
                } else {
                    s[i]
                }
            } else {
                Term::Atom(0, 0)
            },
    )
}

/// Patch of keyed children (fields by name, map entries by key): each pair of
/// `s` is patched with the first pair of `r` under the same key, if any.
pub open spec fn patch_pairs(s: Seq<Term>, r: Seq<Term>) -> Seq<Term>
    decreases s, 0int,
{
    Seq::new(
        s.len(),
        |i: int|
            if 0 <= i < s.len() {
                match s[i] {
                    Term::Branch(t, kv) => if kv.len() == 2 && first_key(r, kv[0], 0) >= 0 {
                        Term::Branch(
                            t,
                            seq![kv[0], patch_term(kv[1], pair_value(r[first_key(r, kv[0], 0)]))],
                        )
                    } else {
                        s[i]
                    },
                    _ => s[i],
                }
            } else {
                Term::Atom(0, 0)
            },
    )
}

pub open spec fn patch_variant(f: Term, g: Term) -> Term
    decreases f, 1int,
{
    match f {
        Term::Branch(k, fs) => if tag(g) != k {
            f
        } else if k == 0 {
            Term::Branch(0, patch_pairs(fs, children(g)))
        } else if k == 1 {
            Term::Branch(1, patch_seq(fs, children(g)))
        } else {
            f
        },
        _ => f,
    }
}

/// What patching a value `a` with `b` gives. Of another kind, `b` is ignored.
/// A scalar or string is replaced. Structs are patched field by field (by
/// name), tuples, tuple structs and lists index by index, maps entry by entry
/// (by key); what `b` lacks is kept and what `b` has beyond `a` is ignored.
/// An enum whose active variant has the same name is patched field by field;
/// with another variant it is replaced.
pub open spec fn patch_term(a: Term, b: Term) -> Term
    decreases a, 2int,
{
    match a {
        Term::Atom(ta, _) => if b is Atom && tag(b) == ta {
            b
        } else {
            a
        },
        Term::Branch(ta, s) => if !(b is Branch) || tag(b) != ta {
            a
        } else if ta == 15 {
            b
        } else if ta == 16 || ta == 21 {
            Term::Branch(ta, patch_pairs(s, children(b)))
        } else if ta == 17 {
            if s.len() == 2 && children(b).len() == 2 && s[0] == children(b)[0] {
                Term::Branch(17, seq![s[0], patch_variant(s[1], children(b)[1])])
            } else {
                b
            }
        } else if 18 <= ta <= 20 {
            Term::Branch(ta, patch_seq(s, children(b)))
        } else {
            a
        },
    }
}


/// No two pairs share a key.
pub open spec fn unique_keys(s: Seq<Term>) -> bool {
    forall|i: int, j: int| 0 <= i < j < s.len() ==> pair_key(s[i]) != pair_key(s[j])
}

/// A key and a value: the form of a struct field and of a map entry.
pub open spec fn is_pair(t: Term) -> bool {
    t is Branch && tag(t) == 0 && children(t).len() == 2
}

/// Keys strictly ascending in the order of values.
pub open spec fn ascending_keys(s: Seq<Term>) -> bool {
    forall|i: int, j: int| 0 <= i < j < s.len() ==> term_cmp(pair_key(s[i]), pair_key(s[j])) < 0
}

pub open spec fn pairs_ok(s: Seq<Term>, sorted: bool) -> bool {
    &&& forall|i: int| 0 <= i < s.len() ==> is_pair(#[trigger] s[i])
    &&& unique_keys(s)
    &&& sorted ==> ascending_keys(s)
}

/// A well-formed value: everywhere in it, the field names of each struct
/// (and struct variant) are distinct, and the entries of each map are held in
/// strictly ascending order of their keys, so that two maps with the same
/// entries are the same value.
pub open spec fn wf_term(t: Term) -> bool
    decreases t,
{
    match t {
        Term::Atom(..) => true,
        Term::Branch(k, s) => {
            &&& forall|i: int| 0 <= i < s.len() ==> wf_term(s[i])
            &&& k == 16 ==> pairs_ok(s, false)
            &&& k == 21 ==> pairs_ok(s, true)
            &&& (k == 17 && s.len() == 2 && tag(s[1]) == 0) ==> pairs_ok(children(s[1]), false)
        },
    }
}

impl Value {
    pub open spec fn well_formed(&self) -> bool {
        wf_term(self@)
    }
}

proof fn lemma_patch_seq_wf(s: Seq<Term>, r: Seq<Term>)
    requires
        forall|i: int| 0 <= i < s.len() ==> wf_term(s[i]),
        forall|i: int| 0 <= i < r.len() ==> wf_term(r[i]),
    ensures
        forall|i: int| 0 <= i < s.len() ==> wf_term(#[trigger] patch_seq(s, r)[i]),
    decreases s, 0int,
{
    assert forall|i: int| 0 <= i < s.len() implies wf_term(#[trigger] patch_seq(s, r)[i]) by {
        if i < r.len() {
            lemma_patch_wf(s[i], r[i]);
        }
    }
}

proof fn lemma_patch_pairs_wf(s: Seq<Term>, r: Seq<Term>, sorted: bool)
    requires
        forall|i: int| 0 <= i < s.len() ==> wf_term(s[i]),
        forall|i: int| 0 <= i < r.len() ==> wf_term(r[i]),
        pairs_ok(s, sorted),
    ensures
        forall|i: int| 0 <= i < s.len() ==> wf_term(#[trigger] patch_pairs(s, r)[i]),
        pairs_ok(patch_pairs(s, r), sorted),
    decreases s, 0int,
{
    let p = patch_pairs(s, r);
    assert forall|i: int| 0 <= i < s.len() implies wf_term(#[trigger] p[i]) && pair_key(p[i])
        == pair_key(s[i]) && is_pair(p[i]) by {
        assert(is_pair(s[i]));
        match s[i] {
            Term::Branch(t, kv) => {
                assert(wf_term(kv[0]) && wf_term(kv[1]));
                let j = first_key(r, kv[0], 0);
                if j >= 0 {
                    lemma_first_key_range(r, kv[0], 0);
                    let w = pair_value(r[j]);
                    assert(wf_term(r[j]));
                    assert(wf_term(w)) by {
                        match r[j] {
                            Term::Branch(_, rv) => {
                                if rv.len() == 2 {
                                    assert(wf_term(rv[1]));
                                }
                            },
                            _ => {},
                        }
                    }
                    lemma_patch_wf(kv[1], w);
                    let nkv = seq![kv[0], patch_term(kv[1], w)];
                    assert(nkv[0] == kv[0] && nkv[1] == patch_term(kv[1], w));
                }
            },
            _ => {},
        }
    }
}

/// Patching keeps values well formed: keys are never added or changed, and
/// what replaces a part is a part of the (well-formed) patch.
proof fn lemma_patch_wf(a: Term, b: Term)
    requires
        wf_term(a),
        wf_term(b),
    ensures
        wf_term(patch_term(a, b)),
    decreases a, 1int,
{
    match a {
        Term::Atom(ka, _) => {
            if b is Atom && tag(b) == ka {
                assert(patch_term(a, b) == b);
            } else {
                assert(patch_term(a, b) == a);
            }
        },
        Term::Branch(k, s) => {
            if !(b is Branch) || tag(b) != k {
                assert(patch_term(a, b) == a);
            } else if k == 15 {
                assert(patch_term(a, b) == b);
            } else if k < 15 || k > 21 {
                assert(patch_term(a, b) == a);
            }
            if b is Branch && tag(b) == k {
                let r = children(b);
                assert(forall|i: int| 0 <= i < r.len() ==> wf_term(r[i]));
                if k == 16 {
                    lemma_patch_pairs_wf(s, r, false);
                    assert(patch_term(a, b) == Term::Branch(16, patch_pairs(s, r)));
                } else if k == 21 {
                    lemma_patch_pairs_wf(s, r, true);
                    assert(patch_term(a, b) == Term::Branch(21, patch_pairs(s, r)));
                } else if k == 17 {
                    if s.len() == 2 && r.len() == 2 && s[0] == r[0] {
                        let f = s[1];
                        let g = r[1];
                        assert(wf_term(f) && wf_term(g));
                        match f {
                            Term::Branch(kf, fs) => {
                                let gs = children(g);
                                assert(forall|i: int| 0 <= i < gs.len() ==> wf_term(gs[i]));
                                assert(forall|i: int| 0 <= i < fs.len() ==> wf_term(fs[i]));
                                if tag(g) == kf && kf == 0 {
                                    lemma_patch_pairs_wf(fs, gs, false);
                                    let pv = Term::Branch(0, patch_pairs(fs, gs));
                                    assert(patch_variant(f, g) == pv);
                                    assert(forall|i: int| 0 <= i < children(pv).len() ==> wf_term(children(pv)[i]));
                                } else if tag(g) == kf && kf == 1 {
                                    lemma_patch_seq_wf(fs, gs);
                                    let pv = Term::Branch(1, patch_seq(fs, gs));
                                    assert(patch_variant(f, g) == pv);
                                    assert(forall|i: int| 0 <= i < children(pv).len() ==> wf_term(children(pv)[i]));
                                } else {
                                    assert(patch_variant(f, g) == f);
                                }
                            },
                            _ => {},
                        }
                        assert(wf_term(patch_variant(f, g)));
                        let n = seq![s[0], patch_variant(f, g)];
                        assert(n[0] == s[0] && n[1] == patch_variant(f, g));
                        assert(wf_term(s[0]));
                        assert(patch_term(a, b) == Term::Branch(17, n));
                        assert(forall|i: int| 0 <= i < n.len() ==> wf_term(n[i]));
                    } else {
                        assert(patch_term(a, b) == b);
                    }
                } else if 18 <= k <= 20 {
                    lemma_patch_seq_wf(s, r);
                    assert(patch_term(a, b) == Term::Branch(k, patch_seq(s, r)));
                }
            }
        },
    }
}

proof fn lemma_first_key_unique(s: Seq<Term>, i: int, m: int)
    requires
        unique_keys(s),
        0 <= m <= i < s.len(),
    ensures
        first_key(s, pair_key(s[i]), m) == i,
    decreases i - m,
{
    if m < i {
        lemma_first_key_unique(s, i, m + 1);
    }
}

proof fn lemma_patch_seq_self(s: Seq<Term>)
    requires
        forall|i: int| 0 <= i < s.len() ==> wf_term(s[i]),
    ensures
        patch_seq(s, s) == s,
    decreases s, 0int,
{
    assert forall|i: int| 0 <= i < s.len() implies patch_seq(s, s)[i] == s[i] by {
        lemma_patch_self(s[i]);
    }
    assert(patch_seq(s, s) =~= s);
}

proof fn lemma_patch_pairs_self(s: Seq<Term>)
    requires
        forall|i: int| 0 <= i < s.len() ==> wf_term(s[i]),
        unique_keys(s),
    ensures
        patch_pairs(s, s) == s,
    decreases s, 0int,
{
    assert forall|i: int| 0 <= i < s.len() implies patch_pairs(s, s)[i] == s[i] by {
        match s[i] {
            Term::Branch(t, kv) => {
                if kv.len() == 2 {
                    lemma_first_key_unique(s, i, 0);
                    assert(wf_term(kv[1]));
                    lemma_patch_self(kv[1]);
                    assert(seq![kv[0], kv[1]] =~= kv);
                }
            },
            _ => {},
        }
    }
    assert(patch_pairs(s, s) =~= s);
}

proof fn lemma_patch_self(t: Term)
    requires
        wf_term(t),
    ensures
        patch_term(t, t) == t,
    decreases t, 1int,
{
    match t {
        Term::Atom(..) => {},
        Term::Branch(k, s) => {
            if k == 16 || k == 21 {
                lemma_patch_pairs_self(s);
            } else if k == 17 {
                if s.len() == 2 {
                    assert(wf_term(s[1]));
                    match s[1] {
                        Term::Branch(kf, fs) => {
                            if kf == 0 {
                                lemma_patch_pairs_self(fs);
                            } else if kf == 1 {
                                lemma_patch_seq_self(fs);
                            }
                        },
                        _ => {},
                    }
                    assert(seq![s[0], s[1]] =~= s);
                }
            } else if 18 <= k <= 20 {
                lemma_patch_seq_self(s);
            }
        },
    }
}

/// Patching a well-formed value with a snapshot of itself leaves it unchanged:
/// `v.patch(&v.to_value())` keeps `v@`.
pub proof fn patch_with_itself(v: Value)
    requires
        wf_term(v@),
    ensures
        patch_term(v@, v@) == v@,
{
    lemma_patch_self(v@);
}

pub(crate) fn first_name_index(r: &Vec<(String, Value)>, name: &String) -> (j: Option<usize>)
    ensures
        j matches Some(k) ==> k as int == first_key(named_terms(*r), text_term(name@), 0) && k
            < r.len(),
        j is None ==> first_key(named_terms(*r), text_term(name@), 0) == -1,
{
    let ghost s = named_terms(*r);
    let mut i: usize = 0;
    while i < r.len()
        invariant
            i <= r.len(),
            s == named_terms(*r),
            first_key(s, text_term(name@), 0) == first_key(s, text_term(name@), i as int),
        decreases r.len() - i,
    {
        assert(pair_key(s[i as int]) == text_term(r[i as int].0@));
        if same_text(r[i].0.as_str(), name.as_str()) {
            return Some(i);
        }
        i = i + 1;
    }
    None
}

fn first_entry_index(r: &Vec<(Value, Value)>, key: &Value) -> (j: Option<usize>)
    ensures
        j matches Some(k) ==> k as int == first_key(entry_terms(*r), key@, 0) && k < r.len(),
        j is None ==> first_key(entry_terms(*r), key@, 0) == -1,
{
    let ghost s = entry_terms(*r);
    let mut i: usize = 0;
    while i < r.len()
        invariant
            i <= r.len(),
            s == entry_terms(*r),
            first_key(s, key@, 0) == first_key(s, key@, i as int),
        decreases r.len() - i,
    {
        assert(pair_key(s[i as int]) == r[i as int].0@);
        if r[i].0 == *key {
            return Some(i);
        }
        i = i + 1;
    }
    None
}

fn patch_list(s: &mut Vec<Value>, r: &Vec<Value>)
    ensures
        list_terms(*final(s)) == patch_seq(list_terms(*old(s)), list_terms(*r)),
    decreases *old(s), 0int,
{
    let ghost s0 = *s;
    let mut i: usize = 0;
    while i < s.len()
        invariant
            s0 == *old(s),
            s.len() == s0.len(),
            i <= s.len(),
            forall|j: int|
                0 <= j < i ==> s[j]@ == (if j < r.len() {
                    patch_term(s0[j]@, r[j]@)
                } else {
                    s0[j]@
                }),
            forall|j: int| i <= j < s.len() ==> s[j] == s0[j],
        decreases s.len() - i,
    {
        if i < r.len() {
            proof {
                assert(decreases_to!(s0 => s0[i as int]));
            }
            s[i].patch(&r[i]);
        }
        i = i + 1;
    }
    assert(list_terms(*s) =~= patch_seq(list_terms(s0), list_terms(*r)));
}

fn patch_named(s: &mut Vec<(String, Value)>, r: &Vec<(String, Value)>)
    ensures
        named_terms(*final(s)) == patch_pairs(named_terms(*old(s)), named_terms(*r)),
    decreases *old(s), 0int,
{
    let ghost s0 = *s;
    let ghost rt = named_terms(*r);
    let mut i: usize = 0;
    while i < s.len()
        invariant
            s0 == *old(s),
            s.len() == s0.len(),
            i <= s.len(),
            rt == named_terms(*r),
            forall|j: int|
                0 <= j < i ==> s[j].0@ == s0[j].0@ && s[j].1@ == (if first_key(
                    rt,
                    text_term(s0[j].0@),
                    0,
                ) >= 0 {
                    patch_term(s0[j].1@, pair_value(rt[first_key(rt, text_term(s0[j].0@), 0)]))
                } else {
                    s0[j].1@
                }),
            forall|j: int| i <= j < s.len() ==> s[j] == s0[j],
        decreases s.len() - i,
    {
        match first_name_index(r, &s[i].0) {
            Some(k) => {
                assert(pair_value(rt[k as int]) == r[k as int].1@);
                proof {
                    assert(decreases_to!(s0 => s0[i as int]));
                    assert(decreases_to!(s0[i as int] => s0[i as int].1));
                }
                s[i].1.patch(&r[k].1);
            },
            None => {},
        }
        i = i + 1;
    }
    assert forall|j: int| 0 <= j < s.len() implies named_terms(*s)[j] == patch_pairs(
        named_terms(s0),
        rt,
    )[j] by {
        let kv = seq![text_term(s0[j].0@), s0[j].1@];
        assert(named_terms(s0)[j] == Term::Branch(0, kv));
        assert(kv[0] == text_term(s0[j].0@) && kv[1] == s0[j].1@);
    }
    assert(named_terms(*s) =~= patch_pairs(named_terms(s0), rt));
}

fn patch_entries(s: &mut Vec<(Value, Value)>, r: &Vec<(Value, Value)>)
    ensures
        entry_terms(*final(s)) == patch_pairs(entry_terms(*old(s)), entry_terms(*r)),
    decreases *old(s), 0int,
{
    let ghost s0 = *s;
    let ghost rt = entry_terms(*r);
    let mut i: usize = 0;
    while i < s.len()
        invariant
            s0 == *old(s),
            s.len() == s0.len(),
            i <= s.len(),
            rt == entry_terms(*r),
            forall|j: int|
                0 <= j < i ==> s[j].0@ == s0[j].0@ && s[j].1@ == (if first_key(rt, s0[j].0@, 0)
                    >= 0 {
                    patch_term(s0[j].1@, pair_value(rt[first_key(rt, s0[j].0@, 0)]))
                } else {
                    s0[j].1@
                }),
            forall|j: int| i <= j < s.len() ==> s[j] == s0[j],
        decreases s.len() - i,
    {
        match first_entry_index(r, &s[i].0) {
            Some(k) => {
                assert(pair_value(rt[k as int]) == r[k as int].1@);
                proof {
                    assert(decreases_to!(s0 => s0[i as int]));
                    assert(decreases_to!(s0[i as int] => s0[i as int].1));
                }
                s[i].1.patch(&r[k].1);
            },
            None => {},
        }
        i = i + 1;
    }
    assert forall|j: int| 0 <= j < s.len() implies entry_terms(*s)[j] == patch_pairs(
        entry_terms(s0),
        rt,
    )[j] by {
        let kv = seq![s0[j].0@, s0[j].1@];
        assert(entry_terms(s0)[j] == Term::Branch(0, kv));
        assert(kv[0] == s0[j].0@ && kv[1] == s0[j].1@);
    }
    assert(entry_terms(*s) =~= patch_pairs(entry_terms(s0), rt));
}

fn patch_fields(f: &mut VariantFields, g: &VariantFields)
    ensures
        variant_term(*final(f)) == patch_variant(variant_term(*old(f)), variant_term(*g)),
    decreases *old(f), 0int,
{
    match f {
        VariantFields::Struct(s) => match g {
            VariantFields::Struct(o) => patch_named(&mut s.fields, &o.fields),
            _ => {},
        },
        VariantFields::Tuple(t) => match g {
            VariantFields::Tuple(o) => patch_list(&mut t.fields, &o.fields),
            _ => {},
        },
        VariantFields::Unit => {},
    }
}

impl Value {
    /// Merges `other` into this value in place, as `patch_term` says; the
    /// parts that do not fit are ignored, so the call always completes.
    pub fn patch(&mut self, other: &Value)
        ensures
            final(self)@ == patch_term(old(self)@, other@),
            old(self).well_formed() && other.well_formed() ==> final(self).well_formed(),
        decreases *old(self), 1int,
    {
        proof {
            if old(self).well_formed() && other.well_formed() {
                lemma_patch_wf(old(self)@, other@);
            }
        }
        let ka = self.kind_index();
        let kb = other.kind_index();
        if ka != kb {
            return;
        }
        if ka <= 15 {
            *self = other.to_value();
            return;
        }
        let replace = match (&*self, other) {
            (Value::EnumValue(e), Value::EnumValue(o)) => {
                proof {
                    assert(children(self@)[0] == text_term(e.variant@));
                    assert(children(other@)[0] == text_term(o.variant@));
                    assert(children(self@)[1] == variant_term(e.fields));
                    assert(children(other@)[1] == variant_term(o.fields));
                }
                !same_text(e.variant.as_str(), o.variant.as_str())
            },
            _ => false,
        };
        if replace {
            *self = other.to_value();
            return;
        }
        match self {
            Value::StructValue(s) => match other {
                Value::StructValue(o) => patch_named(&mut s.fields, &o.fields),
                _ => {},
            },
            Value::EnumValue(e) => match other {
                Value::EnumValue(o) => {
                    patch_fields(&mut e.fields, &o.fields);
                },
                _ => {},
            },
            Value::TupleStructValue(t) => match other {
                Value::TupleStructValue(o) => patch_list(&mut t.tuple.fields, &o.tuple.fields),
                _ => {},
            },
            Value::TupleValue(t) => match other {
                Value::TupleValue(o) => patch_list(&mut t.fields, &o.fields),
                _ => {},
            },
            Value::List(l) => match other {
                Value::List(o) => patch_list(l, o),
                _ => {},
            },
            Value::Dict(m) => match other {
                Value::Dict(o) => patch_entries(m, o),
                _ => {},
            },
            _ => {},
        }
    }
}

} // verus!
