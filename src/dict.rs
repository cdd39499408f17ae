//! Building maps whose entries stay in strictly ascending key order.
use vstd::prelude::*;
use crate::order::{Term, term_cmp, lemma_term_cmp_antisym, lemma_term_cmp_eq, lemma_term_cmp_trans};
use crate::value::{Value, StructValue, entry_terms, named_terms, text_term};
use crate::compare::compare;
use crate::resolve::pair_key;
use crate::patch::{pairs_ok, ascending_keys, unique_keys, is_pair, wf_term, first_name_index};
use crate::resolve::{first_key, lemma_first_key_range};

verus! {

/// The entry term of a key and a value.
pub open spec fn entry_term(key: Term, value: Term) -> Term {
    Term::Branch(0, seq![key, value])
}

proof fn lemma_entry_key(key: Term, value: Term)
    ensures
        pair_key(entry_term(key, value)) == key,
        is_pair(entry_term(key, value)),
{
    let kv = seq![key, value];
    assert(kv[0] == key);
}

proof fn lemma_ascending_unique(s: Seq<Term>)
    requires
        ascending_keys(s),
    ensures
        unique_keys(s),
{
    assert forall|i: int, j: int| 0 <= i < j < s.len() implies pair_key(s[i]) != pair_key(s[j]) by {
        lemma_term_cmp_eq(pair_key(s[i]), pair_key(s[j]));
    }
}

/// Puts `key -> value` into the entries of a map held in strictly ascending
/// key order: an entry with an equal key gets the new value, otherwise the
/// entry goes where the order puts it. The order is kept.
pub fn dict_insert(entries: &mut Vec<(Value, Value)>, key: Value, value: Value)
    requires
        pairs_ok(entry_terms(*old(entries)), true),
    ensures
        pairs_ok(entry_terms(*final(entries)), true),
        ({
            let s = entry_terms(*old(entries));
            let e = entry_term(key@, value@);
            (exists|i: int|
                0 <= i < s.len() && pair_key(s[i]) == key@ && entry_terms(*final(entries))
                    == s.update(i, e)) || ((forall|i: int| 0 <= i < s.len() ==> pair_key(s[i])
                != key@) && exists|i: int|
                0 <= i <= s.len() && entry_terms(*final(entries)) == s.insert(i, e))
        }),
        (forall|j: int| 0 <= j < old(entries).len() ==> wf_term(#[trigger] entry_terms(*old(entries))[j]))
            && wf_term(key@) && wf_term(value@) ==> forall|j: int|
            0 <= j < final(entries).len() ==> wf_term(#[trigger] entry_terms(*final(entries))[j]),
{
    let ghost s = entry_terms(*entries);
    let ghost e = entry_term(key@, value@);
    proof {
        lemma_entry_key(key@, value@);
    }
    let mut i: usize = 0;
    while i < entries.len() && compare(&entries[i].0, &key) < 0
        invariant
            i <= entries.len(),
            s == entry_terms(*entries),
            forall|j: int| 0 <= j < i ==> term_cmp(#[trigger] pair_key(s[j]), key@) < 0,
        decreases entries.len() - i,
    {
        proof {
            let kv = seq![entries[i as int].0@, entries[i as int].1@];
            assert(s[i as int] == Term::Branch(0, kv));
            assert(pair_key(s[i as int]) == entries[i as int].0@);
        }
        i = i + 1;
    }
    let ghost old_entries = *entries;
    if i < entries.len() {
        proof {
            let kv = seq![entries[i as int].0@, entries[i as int].1@];
            assert(s[i as int] == Term::Branch(0, kv));
            assert(pair_key(s[i as int]) == entries[i as int].0@);
        }
        if compare(&entries[i].0, &key) == 0 {
            proof {
                lemma_term_cmp_eq(entries[i as int].0@, key@);
            }
            entries[i].1 = value;
            proof {
                let kv = seq![key@, value@];
                assert(entry_terms(*entries) =~= s.update(i as int, e));
                assert forall|a: int, b: int| 0 <= a < b < s.len() implies term_cmp(
                    pair_key(s.update(i as int, e)[a]),
                    pair_key(s.update(i as int, e)[b]),
                ) < 0 by {
                    assert(pair_key(s.update(i as int, e)[a]) == pair_key(s[a]));
                    assert(pair_key(s.update(i as int, e)[b]) == pair_key(s[b]));
                }
                lemma_ascending_unique(entry_terms(*entries));
            }
            return;
        }
    }
    proof {
        assert forall|j: int| 0 <= j < s.len() implies pair_key(s[j]) != key@ by {
            if j < i {
                lemma_term_cmp_eq(pair_key(s[j]), key@);
            } else {
                lemma_term_cmp_antisym(pair_key(s[i as int]), key@);
                lemma_term_cmp_eq(pair_key(s[i as int]), key@);
                if j > i {
                    lemma_term_cmp_antisym(key@, pair_key(s[i as int]));
                    lemma_term_cmp_trans(key@, pair_key(s[i as int]), pair_key(s[j]));
                    lemma_term_cmp_eq(key@, pair_key(s[j]));
                }
            }
        }
    }
    entries.insert(i, (key, value));
    proof {
        let t = s.insert(i as int, e);
        assert(entry_terms(*entries) =~= t);
        assert forall|a: int, b: int| 0 <= a < b < t.len() implies term_cmp(pair_key(t[a]), pair_key(t[b])) < 0 by {
            if b < i {
            } else if a < i && b == i {
            } else if a < i && b > i {
                lemma_term_cmp_antisym(pair_key(s[i as int]), key@);
                lemma_term_cmp_eq(pair_key(s[i as int]), key@);
                if b - 1 > i {
                    lemma_term_cmp_trans(pair_key(s[a]), key@, pair_key(s[i as int]));
                    lemma_term_cmp_trans(pair_key(s[a]), pair_key(s[i as int]), pair_key(s[b - 1]));
                } else {
                    lemma_term_cmp_trans(pair_key(s[a]), key@, pair_key(s[b - 1]));
                }
            } else if a == i {
                lemma_term_cmp_antisym(pair_key(s[i as int]), key@);
                lemma_term_cmp_eq(pair_key(s[i as int]), key@);
                if b - 1 > i {
                    lemma_term_cmp_trans(key@, pair_key(s[i as int]), pair_key(s[b - 1]));
                }
            }
        }
        lemma_ascending_unique(t);
    }
}


proof fn lemma_first_key_absent(s: Seq<Term>, key: Term, i: int)
    requires
        0 <= i,
        first_key(s, key, i) == -1,
    ensures
        forall|j: int| i <= j < s.len() ==> pair_key(s[j]) != key,
    decreases s.len() - i,
{
    if i < s.len() {
        lemma_first_key_absent(s, key, i + 1);
    }
}

proof fn lemma_sorted_same_entries(s: Seq<Term>, r: Seq<Term>)
    requires
        ascending_keys(s),
        ascending_keys(r),
        forall|x: Term| s.contains(x) <==> r.contains(x),
    ensures
        s == r,
    decreases s.len(),
{
    if s.len() == 0 {
        if r.len() > 0 {
            assert(r.contains(r[0]));
        }
        assert(s =~= r);
    } else {
        assert(s.contains(s[0]));
        assert(r.len() > 0);
        assert(r.contains(r[0]));
        let j = choose|j: int| 0 <= j < r.len() && r[j] == s[0];
        let i = choose|i: int| 0 <= i < s.len() && s[i] == r[0];
        if j > 0 {
            lemma_term_cmp_antisym(pair_key(r[0]), pair_key(r[j]));
            if i > 0 {
                lemma_term_cmp_antisym(pair_key(s[0]), pair_key(s[i]));
            } else {
                lemma_term_cmp_eq(pair_key(r[0]), pair_key(r[j]));
            }
        }
        assert(s[0] == r[0]);
        let s1 = s.drop_first();
        let r1 = r.drop_first();
        assert forall|x: Term| s1.contains(x) <==> r1.contains(x) by {
            if s1.contains(x) {
                let a = choose|a: int| 0 <= a < s1.len() && s1[a] == x;
                assert(s[a + 1] == x);
                assert(s.contains(x));
                let b = choose|b: int| 0 <= b < r.len() && r[b] == x;
                if b == 0 {
                    lemma_term_cmp_eq(pair_key(s[0]), pair_key(s[a + 1]));
                }
                assert(r1[b - 1] == x);
            }
            if r1.contains(x) {
                let a = choose|a: int| 0 <= a < r1.len() && r1[a] == x;
                assert(r[a + 1] == x);
                assert(r.contains(x));
                let b = choose|b: int| 0 <= b < s.len() && s[b] == x;
                if b == 0 {
                    lemma_term_cmp_eq(pair_key(r[0]), pair_key(r[a + 1]));
                }
                assert(s1[b - 1] == x);
            }
        }
        lemma_sorted_same_entries(s1, r1);
        assert(s =~= seq![s[0]] + s1);
        assert(r =~= seq![r[0]] + r1);
    }
}

/// Two well-formed maps that hold the same entries are the same value, and so
/// compare equal, whatever order their entries were inserted in: a map's
/// entries are held, and compared, in ascending order of keys.
pub proof fn maps_with_same_entries_are_equal(a: Vec<(Value, Value)>, b: Vec<(Value, Value)>)
    requires
        Value::Dict(a).well_formed(),
        Value::Dict(b).well_formed(),
        forall|x: Term| entry_terms(a).contains(x) <==> entry_terms(b).contains(x),
    ensures
        Value::Dict(a)@ == Value::Dict(b)@,
        term_cmp(Value::Dict(a)@, Value::Dict(b)@) == 0,
{
    lemma_sorted_same_entries(entry_terms(a), entry_terms(b));
    lemma_term_cmp_eq(Value::Dict(a)@, Value::Dict(b)@);
}

impl StructValue {
    /// Sets the field `name` to `value`: an existing field of that name gets
    /// the value, otherwise the field is added at the end. Distinct names stay
    /// distinct.
    pub fn set_field(&mut self, name: String, value: Value)
        requires
            pairs_ok(named_terms(old(self).fields), false),
        ensures
            pairs_ok(named_terms(final(self).fields), false),
            ({
                let s = named_terms(old(self).fields);
                let e = entry_term(text_term(name@), value@);
                (exists|i: int|
                    0 <= i < s.len() && pair_key(s[i]) == text_term(name@) && named_terms(
                        final(self).fields,
                    ) == s.update(i, e)) || ((forall|i: int|
                    0 <= i < s.len() ==> pair_key(s[i]) != text_term(name@)) && named_terms(
                    final(self).fields,
                ) == s.push(e))
            }),
    {
        let ghost s = named_terms(self.fields);
        let ghost e = entry_term(text_term(name@), value@);
        proof {
            lemma_entry_key(text_term(name@), value@);
        }
        match first_name_index(&self.fields, &name) {
            Some(k) => {
                proof {
                    lemma_first_key_range(s, text_term(name@), 0);
                }
                self.fields[k].1 = value;
                proof {
                    let kv = seq![text_term(self.fields[k as int].0@), value@];
                    assert(named_terms(self.fields) =~= s.update(k as int, e));
                    assert forall|a: int, b: int| 0 <= a < b < s.len() implies pair_key(
                        s.update(k as int, e)[a],
                    ) != pair_key(s.update(k as int, e)[b]) by {
                        assert(pair_key(s.update(k as int, e)[a]) == pair_key(s[a]));
                        assert(pair_key(s.update(k as int, e)[b]) == pair_key(s[b]));
                    }
                }
            },
            None => {
                proof {
                    lemma_first_key_absent(s, text_term(name@), 0);
                }
                self.fields.push((name, value));
                proof {
                    assert(named_terms(self.fields) =~= s.push(e));
                }
            },
        }
    }
}

} // verus!
