//! The mathematical definition of the edit distance, and the laws that hold
//! of it: reflexivity, symmetry, and the length bounds.

use vstd::prelude::*;

verus! {

/// The smaller of two naturals.
pub open spec fn min2(x: nat, y: nat) -> nat {
    if x <= y {
        x
    } else {
        y
    }
}

/// The larger of two naturals.
pub open spec fn max2(x: nat, y: nat) -> nat {
    if x >= y {
        x
    } else {
        y
    }
}

/// The minimum number of single-character insertions, deletions and
/// substitutions (each of cost 1) that transform `a` into `b`, defined by
/// recursion on the leading characters: an empty side costs the length of
/// the other; equal heads cost nothing; unequal heads cost one operation
/// plus the cheapest of deletion, insertion and substitution.
pub open spec fn edit_dist(a: Seq<char>, b: Seq<char>) -> nat
    decreases a.len() + b.len(),
{
    if a.len() == 0 {
        b.len()
    } else if b.len() == 0 {
        a.len()
    } else if a[0] == b[0] {
        edit_dist(a.skip(1), b.skip(1))
    } else {
        1 + min2(
            min2(edit_dist(a.skip(1), b), edit_dist(a, b.skip(1))),
            edit_dist(a.skip(1), b.skip(1)),
        )
    }
}

/// A sequence is at distance zero from itself.
pub proof fn lemma_edit_dist_self(a: Seq<char>)
    ensures
        edit_dist(a, a) == 0,
    decreases a.len(),
{
    if a.len() > 0 {
        lemma_edit_dist_self(a.skip(1));
    }
}

/// The distance is at least the difference of the lengths and at most the
/// larger of the lengths.
pub proof fn lemma_edit_dist_bounds(a: Seq<char>, b: Seq<char>)
    ensures
        edit_dist(a, b) + a.len() >= b.len(),
        edit_dist(a, b) + b.len() >= a.len(),
        edit_dist(a, b) <= max2(a.len(), b.len()),
    decreases a.len() + b.len(),
{
    if a.len() > 0 && b.len() > 0 {
        lemma_edit_dist_bounds(a.skip(1), b);
        lemma_edit_dist_bounds(a, b.skip(1));
        lemma_edit_dist_bounds(a.skip(1), b.skip(1));
    }
}

/// With unit costs the distance is symmetric: every edit script from `a`
/// to `b` inverts, operation by operation, into one from `b` to `a`.
pub proof fn lemma_edit_dist_symmetric(a: Seq<char>, b: Seq<char>)
    ensures
        edit_dist(a, b) == edit_dist(b, a),
    decreases a.len() + b.len(),
{
    if a.len() > 0 && b.len() > 0 {
        lemma_edit_dist_symmetric(a.skip(1), b);
        lemma_edit_dist_symmetric(a, b.skip(1));
        lemma_edit_dist_symmetric(a.skip(1), b.skip(1));
    }
}

/// Dropping the leading character of either argument changes the distance
/// by at most one in either direction.
pub proof fn lemma_edit_dist_drop_head(a: Seq<char>, b: Seq<char>)
    ensures
        a.len() > 0 ==> edit_dist(a.skip(1), b) <= edit_dist(a, b) + 1,
        a.len() > 0 ==> edit_dist(a, b) <= edit_dist(a.skip(1), b) + 1,
        b.len() > 0 ==> edit_dist(a, b.skip(1)) <= edit_dist(a, b) + 1,
        b.len() > 0 ==> edit_dist(a, b) <= edit_dist(a, b.skip(1)) + 1,
    decreases a.len() + b.len(),
{
    if a.len() > 0 && b.len() > 0 {
        lemma_edit_dist_drop_head(a.skip(1), b);
        lemma_edit_dist_drop_head(a, b.skip(1));
    }
}

} // verus!
