//! The dictionary order on byte strings, by which positions and names are
//! compared.
use vstd::prelude::*;

verus! {

/// `a` and `b` hold the same bytes before place `i`.
pub open spec fn agree(a: Seq<u8>, b: Seq<u8>, i: int) -> bool {
    forall|j: int| 0 <= j < i ==> a[j] == b[j]
}

/// `a` comes before `b`, and `i` is where that shows: up to `i` they agree,
/// and there `a` ends or holds the smaller byte.
pub open spec fn lex_lt_at(a: Seq<u8>, b: Seq<u8>, i: int) -> bool {
    &&& 0 <= i <= a.len()
    &&& i < b.len()
    &&& agree(a, b, i)
    &&& (i == a.len() || a[i] < b[i])
}

/// `a` comes before `b` in the dictionary.
pub open spec fn lex_lt(a: Seq<u8>, b: Seq<u8>) -> bool {
    exists|i: int| lex_lt_at(a, b, i)
}

/// `a` comes before `b` or is `b`.
pub open spec fn lex_le(a: Seq<u8>, b: Seq<u8>) -> bool {
    lex_lt(a, b) || a == b
}

pub proof fn lemma_lex_irreflexive(a: Seq<u8>)
    ensures
        !lex_lt(a, a),
{
}

pub proof fn lemma_lex_transitive(a: Seq<u8>, b: Seq<u8>, c: Seq<u8>)
    requires
        lex_lt(a, b),
        lex_lt(b, c),
    ensures
        lex_lt(a, c),
{
    let i = choose|i: int| lex_lt_at(a, b, i);
    let j = choose|j: int| lex_lt_at(b, c, j);
    if i <= j {
        assert(lex_lt_at(a, c, i));
    } else {
        assert(lex_lt_at(a, c, j));
    }
}

pub proof fn lemma_lex_asymmetric(a: Seq<u8>, b: Seq<u8>)
    requires
        lex_lt(a, b),
    ensures
        !lex_lt(b, a),
        a != b,
{
    if lex_lt(b, a) {
        lemma_lex_transitive(a, b, a);
    }
    lemma_lex_irreflexive(a);
}

proof fn lemma_lex_total_from(a: Seq<u8>, b: Seq<u8>, i: int)
    requires
        0 <= i <= a.len(),
        i <= b.len(),
        agree(a, b, i),
    ensures
        lex_lt(a, b) || lex_lt(b, a) || a == b,
    decreases a.len() - i,
{
    if i == a.len() && i == b.len() {
        assert(a =~= b);
    } else if i == a.len() {
        assert(lex_lt_at(a, b, i));
    } else if i == b.len() {
        assert(lex_lt_at(b, a, i));
    } else if a[i] < b[i] {
        assert(lex_lt_at(a, b, i));
    } else if b[i] < a[i] {
        assert(lex_lt_at(b, a, i));
    } else {
        lemma_lex_total_from(a, b, i + 1);
    }
}

/// Of two byte strings one comes first, unless they are the same.
pub proof fn lemma_lex_total(a: Seq<u8>, b: Seq<u8>)
    ensures
        lex_lt(a, b) || lex_lt(b, a) || a == b,
{
    lemma_lex_total_from(a, b, 0);
}

/// Whether `a` comes before `b` in the dictionary.
pub fn bytes_lt(a: &[u8], b: &[u8]) -> (r: bool)
    ensures
        r == lex_lt(a@, b@),
{
    let mut i: usize = 0;
    while i < a.len() && i < b.len()
        invariant
            i <= a.len(),
            i <= b.len(),
            agree(a@, b@, i as int),
        decreases a.len() - i,
    {
        if a[i] < b[i] {
            assert(lex_lt_at(a@, b@, i as int));
            return true;
        }
        if a[i] > b[i] {
            proof {
                assert(lex_lt_at(b@, a@, i as int));
                lemma_lex_asymmetric(b@, a@);
            }
            return false;
        }
        i += 1;
    }
    if i < b.len() {
        assert(lex_lt_at(a@, b@, i as int));
        true
    } else {
        proof {
            if i < a.len() {
                assert(lex_lt_at(b@, a@, i as int));
                lemma_lex_asymmetric(b@, a@);
            } else {
                assert(a@ =~= b@);
                lemma_lex_irreflexive(a@);
            }
        }
        false
    }
}

/// Whether `a` and `b` hold the same bytes.
pub fn bytes_eq(a: &[u8], b: &[u8]) -> (r: bool)
    ensures
        r == (a@ == b@),
{
    if a.len() != b.len() {
        return false;
    }
    let mut i: usize = 0;
    while i < a.len()
        invariant
            i <= a.len(),
            a.len() == b.len(),
            agree(a@, b@, i as int),
        decreases a.len() - i,
    {
        if a[i] != b[i] {
            return false;
        }
        i += 1;
    }
    assert(a@ =~= b@);
    true
}

} // verus!
