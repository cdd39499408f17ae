//! Terms, the mathematical view of values, and their total order.
use vstd::prelude::*;

verus! {

/// The mathematical shape of a dynamic value: a leaf carrying an integer, or a
/// branch carrying a sequence of children. Both carry a tag that tells kinds apart.
pub enum Term {
    Atom(int, int),
    Branch(int, Seq<Term>),
}

/// The tag of a term, which tells kinds of values apart.
pub open spec fn tag(t: Term) -> int {
    match t {
        Term::Atom(k, _) => k,
        Term::Branch(k, _) => k,
    }
}

/// The children of a branch; an atom has none.
pub open spec fn children(t: Term) -> Seq<Term> {
    match t {
        Term::Branch(_, s) => s,
        _ => Seq::empty(),
    }
}

pub open spec fn cmp_int(a: int, b: int) -> int {
    if a < b {
        -1
    } else if a == b {
        0
    } else {
        1
    }
}

/// Three-way comparison of terms: `-1`, `0` or `1`.
pub open spec fn term_cmp(a: Term, b: Term) -> int
    decreases a, 0int,
{
    match a {
        Term::Atom(t1, x) => match b {
            Term::Atom(t2, y) => if t1 != t2 {
                cmp_int(t1, t2)
            } else {
                cmp_int(x, y)
            },
            Term::Branch(..) => -1,
        },
        Term::Branch(t1, s) => match b {
            Term::Atom(..) => 1,
            Term::Branch(t2, r) => if t1 != t2 {
                cmp_int(t1, t2)
            } else {
                seq_cmp(s, r, 0)
            },
        },
    }
}

/// Lexicographic comparison of `s[i..]` and `r[i..]`.
pub open spec fn seq_cmp(s: Seq<Term>, r: Seq<Term>, i: int) -> int
    decreases s, s.len() - i,
{
    if i < 0 || i >= s.len() {
        if i >= 0 && i < r.len() {
            -1
        } else {
            0
        }
    } else if i >= r.len() {
        1
    } else {
        let c = term_cmp(s[i], r[i]);
        if c != 0 {
            c
        } else {
            seq_cmp(s, r, i + 1)
        }
    }
}


pub proof fn lemma_term_cmp_antisym(a: Term, b: Term)
    ensures
        term_cmp(a, b) == -term_cmp(b, a),
        -1 <= term_cmp(a, b) <= 1,
    decreases a, 0int,
{
    match a {
        Term::Branch(t1, s) => match b {
            Term::Branch(t2, r) => if t1 == t2 {
                lemma_seq_cmp_antisym(s, r, 0);
            },
            _ => {},
        },
        _ => {},
    }
}

pub proof fn lemma_seq_cmp_antisym(s: Seq<Term>, r: Seq<Term>, i: int)
    ensures
        seq_cmp(s, r, i) == -seq_cmp(r, s, i),
        -1 <= seq_cmp(s, r, i) <= 1,
    decreases s, s.len() - i,
{
    if 0 <= i < s.len() && i < r.len() {
        lemma_term_cmp_antisym(s[i], r[i]);
        if term_cmp(s[i], r[i]) == 0 {
            lemma_seq_cmp_antisym(s, r, i + 1);
        }
    }
}

pub proof fn lemma_term_cmp_eq(a: Term, b: Term)
    ensures
        term_cmp(a, b) == 0 <==> a == b,
    decreases a, 0int,
{
    match a {
        Term::Branch(t1, s) => match b {
            Term::Branch(t2, r) => if t1 == t2 {
                lemma_seq_cmp_eq(s, r, 0);
                if seq_cmp(s, r, 0) == 0 {
                    assert(s =~= r);
                }
            },
            _ => {},
        },
        _ => {},
    }
}

pub proof fn lemma_seq_cmp_eq(s: Seq<Term>, r: Seq<Term>, i: int)
    requires
        0 <= i <= s.len(),
        i <= r.len(),
    ensures
        seq_cmp(s, r, i) == 0 <==> (s.len() == r.len() && forall|j: int|
            i <= j < s.len() ==> s[j] == r[j]),
    decreases s, s.len() - i,
{
    if i < s.len() && i < r.len() {
        lemma_term_cmp_eq(s[i], r[i]);
        lemma_seq_cmp_eq(s, r, i + 1);
    }
}

pub proof fn lemma_term_cmp_trans(a: Term, b: Term, c: Term)
    requires
        term_cmp(a, b) <= 0,
        term_cmp(b, c) <= 0,
    ensures
        term_cmp(a, c) <= 0,
        term_cmp(a, b) < 0 || term_cmp(b, c) < 0 ==> term_cmp(a, c) < 0,
    decreases a, 0int,
{
    lemma_term_cmp_antisym(a, b);
    lemma_term_cmp_antisym(b, c);
    lemma_term_cmp_antisym(a, c);
    match (a, b, c) {
        (Term::Branch(t1, s), Term::Branch(t2, r), Term::Branch(t3, q)) => {
            if t1 == t2 && t2 == t3 {
                lemma_seq_cmp_trans(s, r, q, 0);
            }
        },
        _ => {},
    }
}

pub proof fn lemma_seq_cmp_trans(s: Seq<Term>, r: Seq<Term>, q: Seq<Term>, i: int)
    requires
        0 <= i,
        seq_cmp(s, r, i) <= 0,
        seq_cmp(r, q, i) <= 0,
    ensures
        seq_cmp(s, q, i) <= 0,
        seq_cmp(s, r, i) < 0 || seq_cmp(r, q, i) < 0 ==> seq_cmp(s, q, i) < 0,
    decreases s, s.len() - i,
{
    if i < s.len() && i < r.len() && i < q.len() {
        lemma_term_cmp_antisym(s[i], r[i]);
        lemma_term_cmp_antisym(r[i], q[i]);
        lemma_term_cmp_eq(s[i], r[i]);
        lemma_term_cmp_eq(r[i], q[i]);
        lemma_term_cmp_trans(s[i], r[i], q[i]);
        if term_cmp(s[i], r[i]) == 0 && term_cmp(r[i], q[i]) == 0 {
            lemma_seq_cmp_trans(s, r, q, i + 1);
        }
    }
}

} // verus!
