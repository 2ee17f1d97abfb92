//! First-match search over index ranges, and lexicographic order on character sequences.

use vstd::prelude::*;

use crate::text::chars_vec;

verus! {

/// `i` is the smallest index below `n` where `p` holds.
pub open spec fn is_first(n: int, p: spec_fn(int) -> bool, i: int) -> bool {
    &&& 0 <= i < n
    &&& p(i)
    &&& forall|j: int| 0 <= j < i ==> !#[trigger] p(j)
}

/// The smallest index below `n` where `p` holds, if any.
pub open spec fn first_where(n: int, p: spec_fn(int) -> bool) -> Option<int> {
    if exists|i: int| is_first(n, p, i) {
        Some(choose|i: int| is_first(n, p, i))
    } else {
        None
    }
}

/// A first match is the first match.
pub proof fn lemma_first_where_some(n: int, p: spec_fn(int) -> bool, i: int)
    requires
        is_first(n, p, i),
    ensures
        first_where(n, p) == Some(i),
{
    let c = choose|c: int| is_first(n, p, c);
    assert(is_first(n, p, c));
    if c < i {
        assert(!p(c));
    } else if i < c {
        assert(!p(i));
    }
}

/// With no match below `n` there is no first match.
pub proof fn lemma_first_where_none(n: int, p: spec_fn(int) -> bool)
    requires
        forall|j: int| 0 <= j < n ==> !#[trigger] p(j),
    ensures
        first_where(n, p) is None,
{
    if exists|i: int| is_first(n, p, i) {
        let c = choose|c: int| is_first(n, p, c);
        assert(p(c));
    }
}

/// A match at `j` means some first match exists.
proof fn lemma_first_exists(n: int, p: spec_fn(int) -> bool, j: int)
    requires
        0 <= j < n,
        p(j),
    ensures
        exists|i: int| is_first(n, p, i),
    decreases j,
{
    if exists|k: int| 0 <= k < j && #[trigger] p(k) {
        let k = choose|k: int| 0 <= k < j && #[trigger] p(k);
        lemma_first_exists(n, p, k);
    } else {
        assert(is_first(n, p, j));
    }
}

/// Without a first match, nothing below `n` matches.
pub proof fn lemma_first_where_none_means_no_match(n: int, p: spec_fn(int) -> bool)
    requires
        first_where(n, p) is None,
    ensures
        forall|j: int| 0 <= j < n ==> !#[trigger] p(j),
{
    assert forall|j: int| 0 <= j < n implies !#[trigger] p(j) by {
        if p(j) {
            lemma_first_exists(n, p, j);
        }
    }
}

/// A first match is a match, with none before it.
pub proof fn lemma_first_where_is_first(n: int, p: spec_fn(int) -> bool)
    requires
        first_where(n, p) is Some,
    ensures
        is_first(n, p, first_where(n, p)->0),
{
}

/// Lexicographic order on character sequences (`a < b`), as `str`'s `Ord` compares them.
pub open spec fn seq_lt(a: Seq<char>, b: Seq<char>) -> bool
    decreases a.len(),
{
    if b.len() == 0 {
        false
    } else if a.len() == 0 {
        true
    } else if a[0] != b[0] {
        a[0] < b[0]
    } else {
        seq_lt(a.skip(1), b.skip(1))
    }
}

/// Whether `a` sorts strictly before `b`.
pub fn str_lt(a: &str, b: &str) -> (r: bool)
    ensures
        r == seq_lt(a@, b@),
{
    let av = chars_vec(a);
    let bv = chars_vec(b);
    let mut i: usize = 0;
    assert(a@.skip(0) =~= a@ && b@.skip(0) =~= b@);
    while i < av.len() && i < bv.len()
        invariant
            av@ == a@,
            bv@ == b@,
            i <= av.len(),
            i <= bv.len(),
            seq_lt(a@, b@) == seq_lt(a@.skip(i as int), b@.skip(i as int)),
        decreases av.len() - i,
    {
        if av[i] != bv[i] {
            proof {
                assert(a@.skip(i as int)[0] == av@[i as int]);
                assert(b@.skip(i as int)[0] == bv@[i as int]);
            }
            return av[i] < bv[i];
        }
        proof {
            assert(a@.skip(i as int).skip(1) =~= a@.skip(i as int + 1));
            assert(b@.skip(i as int).skip(1) =~= b@.skip(i as int + 1));
        }
        i += 1;
    }
    i < bv.len()
}


/// No sequence sorts before itself.
pub proof fn lemma_seq_lt_irreflexive(a: Seq<char>)
    ensures
        !seq_lt(a, a),
    decreases a.len(),
{
    if a.len() > 0 {
        lemma_seq_lt_irreflexive(a.skip(1));
    }
}

/// Two different sequences are ordered one way or the other, and never both ways.
pub proof fn lemma_seq_lt_trichotomy(a: Seq<char>, b: Seq<char>)
    ensures
        a != b ==> (seq_lt(a, b) || seq_lt(b, a)),
        !(seq_lt(a, b) && seq_lt(b, a)),
    decreases a.len(),
{
    if a.len() == 0 && b.len() == 0 {
        assert(a =~= b);
    } else if a.len() > 0 && b.len() > 0 && a[0] == b[0] {
        lemma_seq_lt_trichotomy(a.skip(1), b.skip(1));
        if a.skip(1) == b.skip(1) {
            assert(a =~= seq![a[0]] + a.skip(1));
            assert(b =~= seq![b[0]] + b.skip(1));
        }
    }
}

/// The order is transitive.
pub proof fn lemma_seq_lt_transitive(a: Seq<char>, b: Seq<char>, c: Seq<char>)
    requires
        seq_lt(a, b),
        seq_lt(b, c),
    ensures
        seq_lt(a, c),
    decreases a.len(),
{
    if a.len() > 0 && b.len() > 0 && c.len() > 0 && a[0] == b[0] && b[0] == c[0] {
        lemma_seq_lt_transitive(a.skip(1), b.skip(1), c.skip(1));
    }
}

} // verus!
