//! The three distance implementations and the strategy dispatcher. Each
//! implementation is proved to return `edit_dist` of the two inputs' views,
//! so any two strategies agree on every input.

use crate::model::edit_dist;
use crate::model::lemma_edit_dist_bounds;
use crate::model::lemma_edit_dist_drop_head;
use crate::model::min2;
use crate::strategy::Strategy;
use vstd::prelude::*;

verus! {

/// The smaller of two machine integers.
fn min_usize(x: usize, y: usize) -> (r: usize)
    ensures
        r == min2(x as nat, y as nat),
{
    if x <= y {
        x
    } else {
        y
    }
}

/// Naive recursion on the leading characters, with no memoization: the
/// baseline reference implementation. Exponential in the worst case.
pub fn lev_naive(a: &str, b: &str) -> (r: usize)
    ensures
        r == edit_dist(a@, b@),
    decreases a@.len() + b@.len(),
{
    let la = a.unicode_len();
    let lb = b.unicode_len();
    if la == 0 {
        return lb;
    }
    if lb == 0 {
        return la;
    }
    let ha = a.get_char(0);
    let hb = b.get_char(0);
    let ta = a.substring_char(1, la);
    let tb = b.substring_char(1, lb);
    proof {
        assert(ta@ =~= a@.skip(1));
        assert(tb@ =~= b@.skip(1));
    }
    if ha == hb {
        return lev_naive(ta, tb);
    }
    let del = lev_naive(ta, b);
    let ins = lev_naive(a, tb);
    let sub = lev_naive(ta, tb);
    proof {
        lemma_edit_dist_bounds(ta@, tb@);
    }
    1 + min_usize(min_usize(del, ins), sub)
}

/// The same recurrence as `lev_naive`, restated as one case analysis over
/// the pair of optional leading characters.
pub fn lev_idiomatic(a: &str, b: &str) -> (r: usize)
    ensures
        r == edit_dist(a@, b@),
    decreases a@.len() + b@.len(),
{
    let la = a.unicode_len();
    let lb = b.unicode_len();
    let ha = if la > 0 {
        Some(a.get_char(0))
    } else {
        None
    };
    let hb = if lb > 0 {
        Some(b.get_char(0))
    } else {
        None
    };
    match (ha, hb) {
        (None, None) => 0,
        (Some(_), None) => la,
        (None, Some(_)) => lb,
        (Some(x), Some(y)) => {
            let ta = a.substring_char(1, la);
            let tb = b.substring_char(1, lb);
            proof {
                assert(ta@ =~= a@.skip(1));
                assert(tb@ =~= b@.skip(1));
            }
            if x == y {
                lev_idiomatic(ta, tb)
            } else {
                let ins = lev_idiomatic(a, tb);
                let del = lev_idiomatic(ta, b);
                let sub = lev_idiomatic(ta, tb);
                proof {
                    lemma_edit_dist_bounds(ta@, tb@);
                }
                1 + min_usize(min_usize(ins, del), sub)
            }
        },
    }
}

/// Collects the characters of a string slice.
fn chars_of(s: &str) -> (r: Vec<char>)
    ensures
        r@ == s@,
{
    let n = s.unicode_len();
    let mut v: Vec<char> = Vec::new();
    let mut i: usize = 0;
    while i < n
        invariant
            n == s@.len(),
            i <= n,
            v@.len() == i,
            forall|k: int| 0 <= k < i ==> v@[k] == s@[k],
        decreases n - i,
    {
        let c = s.get_char(i);
        v.push(c);
        i += 1;
    }
    proof {
        assert(v@ =~= s@);
    }
    v
}

/// Bottom-up dynamic programming over a table of (len(a) + 1) times
/// (len(b) + 1) cells: cell (i, j) holds the distance between the suffix of
/// `a` that starts at character i and the suffix of `b` that starts at
/// character j, so cell (0, 0) is the answer. Runs in time and space
/// proportional to the product of the lengths. The two bounds on the input
/// lengths only keep the table's dimensions representable.
pub fn lev_matrix(a: &str, b: &str) -> (r: usize)
    requires
        a@.len() < usize::MAX,
        b@.len() < usize::MAX,
    ensures
        r == edit_dist(a@, b@),
{
    let av = chars_of(a);
    let bv = chars_of(b);
    let la = av.len();
    let lb = bv.len();

    // Build the table with the boundary cells in place: cell (i, lb) is
    // la - i and cell (la, j) is lb - j, the cost against an empty suffix.
    let mut m: Vec<Vec<usize>> = Vec::new();
    let mut i: usize = 0;
    while i < la + 1
        invariant
            la == a@.len() < usize::MAX,
            lb == b@.len() < usize::MAX,
            i <= la + 1,
            m@.len() == i,
            forall|p: int| 0 <= p < i ==> (#[trigger] m@[p])@.len() == lb + 1,
            forall|p: int|
                0 <= p < i ==> (#[trigger] m@[p])@[lb as int] == edit_dist(
                    a@.skip(p),
                    b@.skip(lb as int),
                ),
            i == la + 1 ==> forall|q: int|
                0 <= q <= lb ==> (#[trigger] m@[la as int]@[q]) == edit_dist(
                    a@.skip(la as int),
                    b@.skip(q),
                ),
        decreases la + 1 - i,
    {
        let mut row: Vec<usize> = Vec::new();
        let mut j: usize = 0;
        while j < lb
            invariant
                la == a@.len() < usize::MAX,
                lb == b@.len() < usize::MAX,
                i <= la,
                j <= lb,
                row@.len() == j,
                i == la ==> forall|q: int| 0 <= q < j ==> (#[trigger] row@[q]) == lb - q,
            decreases lb - j,
        {
            if i < la {
                row.push(0);
            } else {
                row.push(lb - j);
            }
            j += 1;
        }
        row.push(la - i);
        proof {
            assert(b@.skip(lb as int) =~= Seq::<char>::empty());
            assert(a@.skip(i as int).len() == la - i);
            assert(edit_dist(a@.skip(i as int), b@.skip(lb as int)) == la - i);
            if i == la {
                assert(a@.skip(la as int) =~= Seq::<char>::empty());
                assert forall|q: int| 0 <= q <= lb implies (#[trigger] row@[q]) == edit_dist(
                    a@.skip(la as int),
                    b@.skip(q),
                ) by {
                    assert(b@.skip(q).len() == lb - q);
                }
            }
        }
        m.push(row);
        i += 1;
    }

    // Fill the interior cells in order of growing suffixes: cell (i, j)
    // needs cells (i + 1, j), (i, j + 1) and (i + 1, j + 1).
    let mut i: usize = la;
    while i > 0
        invariant
            la == a@.len() < usize::MAX,
            lb == b@.len() < usize::MAX,
            av@ == a@,
            bv@ == b@,
            i <= la,
            m@.len() == la + 1,
            forall|p: int| 0 <= p <= la ==> (#[trigger] m@[p])@.len() == lb + 1,
            forall|p: int, q: int|
                i <= p <= la && 0 <= q <= lb ==> (#[trigger] m@[p]@[q]) == edit_dist(
                    a@.skip(p),
                    b@.skip(q),
                ),
            forall|p: int|
                0 <= p < i ==> (#[trigger] m@[p]@[lb as int]) == edit_dist(
                    a@.skip(p),
                    b@.skip(lb as int),
                ),
        decreases i,
    {
        i -= 1;
        let mut j: usize = lb;
        while j > 0
            invariant
                la == a@.len() < usize::MAX,
                lb == b@.len() < usize::MAX,
                av@ == a@,
                bv@ == b@,
                i < la,
                j <= lb,
                m@.len() == la + 1,
                forall|p: int| 0 <= p <= la ==> (#[trigger] m@[p])@.len() == lb + 1,
                forall|p: int, q: int|
                    i + 1 <= p <= la && 0 <= q <= lb ==> (#[trigger] m@[p]@[q]) == edit_dist(
                        a@.skip(p),
                        b@.skip(q),
                    ),
                forall|q: int|
                    j <= q <= lb ==> (#[trigger] m@[i as int]@[q]) == edit_dist(
                        a@.skip(i as int),
                        b@.skip(q),
                    ),
                forall|p: int|
                    0 <= p < i ==> (#[trigger] m@[p]@[lb as int]) == edit_dist(
                        a@.skip(p),
                        b@.skip(lb as int),
                    ),
            decreases j,
        {
            j -= 1;
            let cost: usize = if av[i] == bv[j] {
                0
            } else {
                1
            };
            proof {
                lemma_edit_dist_bounds(a@.skip(i + 1), b@.skip(j as int));
                lemma_edit_dist_bounds(a@.skip(i as int), b@.skip(j + 1));
                lemma_edit_dist_bounds(a@.skip(i + 1), b@.skip(j + 1));
                assert(a@.skip(i as int).skip(1) =~= a@.skip(i + 1));
                assert(b@.skip(j as int).skip(1) =~= b@.skip(j + 1));
                lemma_edit_dist_drop_head(a@.skip(i + 1), b@.skip(j as int));
                lemma_edit_dist_drop_head(a@.skip(i as int), b@.skip(j + 1));
            }
            let del = m[i + 1][j] + 1;
            let ins = m[i][j + 1] + 1;
            let sub = m[i + 1][j + 1] + cost;
            let best = min_usize(min_usize(del, ins), sub);
            m[i][j] = best;
            proof {
                assert(a@.skip(i as int)[0] == a@[i as int]);
                assert(b@.skip(j as int)[0] == b@[j as int]);
                assert(best == edit_dist(a@.skip(i as int), b@.skip(j as int)));
            }
        }
    }
    let result = m[0][0];
    proof {
        assert(a@.skip(0) =~= a@);
        assert(b@.skip(0) =~= b@);
    }
    result
}

/// The sole entry point: computes the distance between `a` and `b` with the
/// selected strategy. All strategies return the same value, so the result
/// does not depend on the selection. The length bounds are only needed by
/// the matrix strategy, to keep its table's dimensions representable.
pub fn levenshtein(a: &str, b: &str, strategy: Strategy) -> (r: usize)
    requires
        strategy == Strategy::Matrix ==> a@.len() < usize::MAX && b@.len() < usize::MAX,
    ensures
        r == edit_dist(a@, b@),
{
    match strategy {
        Strategy::Naive => lev_naive(a, b),
        Strategy::Idiomatic => lev_idiomatic(a, b),
        Strategy::Matrix => lev_matrix(a, b),
    }
}

} // verus!
