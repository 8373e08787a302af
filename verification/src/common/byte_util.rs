//! Small verified helpers on byte sequences: fixed-size conversions and
//! lexicographic order.

use vstd::prelude::*;

verus! {

/// Copies a slice of exactly `N` bytes into an array.
pub fn to_array<const N: usize>(s: &[u8]) -> (a: [u8; N])
    requires
        s@.len() == N,
    ensures
        a@ == s@,
{
    let mut a: [u8; N] = vstd::array::array_fill_for_copy_types(0u8);
    let mut i: usize = 0;
    while i < N
        invariant
            i <= N,
            s@.len() == N,
            a@.len() == N,
            forall|j: int| 0 <= j < i ==> a@[j] == s@[j],
        decreases N - i,
    {
        a.set(i, s[i]);
        i = i + 1;
    }
    assert(a@ =~= s@);
    a
}


/// Whether two byte slices hold the same bytes.
pub fn bytes_eq(a: &[u8], b: &[u8]) -> (r: bool)
    ensures
        r == (a@ == b@),
{
    if a.len() != b.len() {
        return false;
    }
    let mut i: usize = 0;
    while i < a.len()
        invariant
            0 <= i <= a@.len(),
            a@.len() == b@.len(),
            forall|j: int| 0 <= j < i ==> a@[j] == b@[j],
        decreases a@.len() - i,
    {
        if a[i] != b[i] {
            return false;
        }
        i = i + 1;
    }
    assert(a@ =~= b@);
    true
}

/// Lexicographic `a <= b` on the bytes from position `i` on (a proper
/// prefix comes first), as slices of bytes compare.
pub open spec fn lex_le_from(a: Seq<u8>, b: Seq<u8>, i: int) -> bool
    decreases a.len() - i,
{
    if i >= a.len() {
        true
    } else if i >= b.len() {
        false
    } else if a[i] < b[i] {
        true
    } else if a[i] > b[i] {
        false
    } else {
        lex_le_from(a, b, i + 1)
    }
}

/// Lexicographic `a <= b`.
pub open spec fn lex_le(a: Seq<u8>, b: Seq<u8>) -> bool {
    lex_le_from(a, b, 0)
}

/// `a <= b` in lexicographic order, as `<=` on byte slices computes it.
pub fn bytes_le(a: &[u8], b: &[u8]) -> (r: bool)
    ensures
        r == lex_le(a@, b@),
{
    let mut i: usize = 0;
    while i < a.len()
        invariant
            0 <= i <= a@.len(),
            lex_le(a@, b@) == lex_le_from(a@, b@, i as int),
        decreases a@.len() - i,
    {
        if i >= b.len() {
            return false;
        }
        if a[i] < b[i] {
            return true;
        }
        if a[i] > b[i] {
            return false;
        }
        i = i + 1;
    }
    true
}

proof fn lemma_lex_le_from_total(a: Seq<u8>, b: Seq<u8>, i: int)
    requires
        a.len() == b.len(),
        0 <= i,
    ensures
        lex_le_from(a, b, i) || lex_le_from(b, a, i),
    decreases a.len() - i,
{
    if i < a.len() && a[i] == b[i] {
        lemma_lex_le_from_total(a, b, i + 1);
    }
}

proof fn lemma_lex_le_from_antisymmetric(a: Seq<u8>, b: Seq<u8>, i: int)
    requires
        a.len() == b.len(),
        0 <= i,
        lex_le_from(a, b, i),
        lex_le_from(b, a, i),
    ensures
        forall|j: int| i <= j < a.len() ==> a[j] == b[j],
    decreases a.len() - i,
{
    if i < a.len() {
        lemma_lex_le_from_antisymmetric(a, b, i + 1);
    }
}

/// On sequences of one length the lexicographic order is total and
/// antisymmetric.
pub proof fn lemma_lex_le_total_order(a: Seq<u8>, b: Seq<u8>)
    requires
        a.len() == b.len(),
    ensures
        lex_le(a, b) || lex_le(b, a),
        lex_le(a, b) && lex_le(b, a) ==> a == b,
{
    lemma_lex_le_from_total(a, b, 0);
    if lex_le(a, b) && lex_le(b, a) {
        lemma_lex_le_from_antisymmetric(a, b, 0);
        assert(a =~= b);
    }
}

} // verus!
