//! Lexicographic order on sequences of code units, and the facts about it
//! that sorting and searching rely on.
use vstd::prelude::*;

verus! {

/// Three-way lexicographic comparison: -1, 0 or 1 as `a` comes before,
/// equals, or comes after `b`.  A proper prefix comes first.
pub open spec fn lex_order(a: Seq<u32>, b: Seq<u32>) -> int
    decreases a.len(),
{
    if a.len() == 0 {
        if b.len() == 0 {
            0
        } else {
            -1
        }
    } else if b.len() == 0 {
        1
    } else if a[0] < b[0] {
        -1
    } else if a[0] > b[0] {
        1
    } else {
        lex_order(a.drop_first(), b.drop_first())
    }
}

/// `a` comes strictly before `b`.
pub open spec fn lex_lt(a: Seq<u32>, b: Seq<u32>) -> bool {
    lex_order(a, b) < 0
}

/// `a` comes before `b` or equals it.
pub open spec fn lex_le(a: Seq<u32>, b: Seq<u32>) -> bool {
    lex_order(a, b) <= 0
}

/// The comparison is -1, 0 or 1, swapping the arguments negates it, and it is
/// 0 exactly on equal sequences.
pub proof fn lemma_lex_order_basics(a: Seq<u32>, b: Seq<u32>)
    ensures
        -1 <= lex_order(a, b) <= 1,
        lex_order(a, b) == -lex_order(b, a),
        (lex_order(a, b) == 0) <==> (a == b),
    decreases a.len(),
{
    if a.len() != 0 && b.len() != 0 && a[0] == b[0] {
        lemma_lex_order_basics(a.drop_first(), b.drop_first());
        if a.drop_first() == b.drop_first() {
            assert(a =~= seq![a[0]] + a.drop_first());
            assert(b =~= seq![b[0]] + b.drop_first());
        }
        if a == b {
            assert(a.drop_first() =~= b.drop_first());
        }
    } else if a.len() == 0 && b.len() == 0 {
        assert(a =~= b);
    } else if a.len() != 0 && b.len() != 0 {
        assert(a[0] != b[0]);
        if a == b {
            assert(a[0] == b[0]);
        }
    }
}

/// The order is transitive, strictly and not strictly.
pub proof fn lemma_lex_order_transitive(a: Seq<u32>, b: Seq<u32>, c: Seq<u32>)
    requires
        lex_order(a, b) <= 0,
        lex_order(b, c) <= 0,
    ensures
        lex_order(a, c) <= 0,
        (lex_order(a, b) < 0 || lex_order(b, c) < 0) ==> lex_order(a, c) < 0,
    decreases a.len(),
{
    lemma_lex_order_basics(a, b);
    lemma_lex_order_basics(b, c);
    lemma_lex_order_basics(a, c);
    if a.len() != 0 && b.len() != 0 && c.len() != 0 && a[0] == b[0] && b[0] == c[0] {
        lemma_lex_order_transitive(a.drop_first(), b.drop_first(), c.drop_first());
    }
}

/// Any two sequences are ordered one way or the other.
pub proof fn lemma_lex_order_total(a: Seq<u32>, b: Seq<u32>)
    ensures
        lex_order(a, b) <= 0 || lex_order(b, a) <= 0,
{
    lemma_lex_order_basics(a, b);
}

/// Compares two code-unit vectors lexicographically.
pub fn lex_compare(a: &Vec<u32>, b: &Vec<u32>) -> (r: i8)
    ensures
        r as int == lex_order(a@, b@),
{
    let mut i: usize = 0;
    assert(a@.skip(0) =~= a@);
    assert(b@.skip(0) =~= b@);
    while i < a.len() && i < b.len()
        invariant
            i <= a.len(),
            i <= b.len(),
            lex_order(a@, b@) == lex_order(a@.skip(i as int), b@.skip(i as int)),
        decreases a.len() - i,
    {
        if a[i] < b[i] {
            return -1;
        } else if a[i] > b[i] {
            return 1;
        }
        assert(a@.skip(i as int).drop_first() =~= a@.skip(i + 1));
        assert(b@.skip(i as int).drop_first() =~= b@.skip(i + 1));
        i = i + 1;
    }
    if i == a.len() {
        if i == b.len() {
            0
        } else {
            -1
        }
    } else {
        1
    }
}

} // verus!
