//! Distance kernel: Levenshtein edit distance between two byte windows,
//! computed with two rolling rows in O(min(m,n)) space.

use vstd::prelude::*;

verus! {

/// Minimum of three integers.
pub open spec fn min3(a: int, b: int, c: int) -> int {
    if a <= b && a <= c {
        a
    } else if b <= c {
        b
    } else {
        c
    }
}

/// Maximum of two integers.
pub open spec fn max2(a: int, b: int) -> int {
    if a >= b {
        a
    } else {
        b
    }
}

/// Levenshtein edit distance: the fewest single-byte insertions, deletions
/// and substitutions (unit cost each) that turn `a` into `b`.
pub open spec fn edit_dist(a: Seq<u8>, b: Seq<u8>) -> int
    decreases a.len() + b.len(),
{
    if a.len() == 0 {
        b.len() as int
    } else if b.len() == 0 {
        a.len() as int
    } else {
        let del = edit_dist(a.drop_last(), b) + 1;
        let ins = edit_dist(a, b.drop_last()) + 1;
        let sub = edit_dist(a.drop_last(), b.drop_last()) + if a.last() == b.last() {
            0int
        } else {
            1int
        };
        min3(del, ins, sub)
    }
}

/// The edit distance is non-negative and never exceeds the longer input's
/// length.
pub proof fn lemma_edit_dist_bounds(a: Seq<u8>, b: Seq<u8>)
    ensures
        0 <= edit_dist(a, b) <= max2(a.len() as int, b.len() as int),
    decreases a.len() + b.len(),
{
    if a.len() == 0 {
    } else if b.len() == 0 {
    } else {
        lemma_edit_dist_bounds(a.drop_last(), b);
        lemma_edit_dist_bounds(a, b.drop_last());
        lemma_edit_dist_bounds(a.drop_last(), b.drop_last());
    }
}

/// The edit distance is symmetric in its arguments.
pub proof fn lemma_edit_dist_symmetric(a: Seq<u8>, b: Seq<u8>)
    ensures
        edit_dist(a, b) == edit_dist(b, a),
    decreases a.len() + b.len(),
{
    if a.len() == 0 || b.len() == 0 {
    } else {
        lemma_edit_dist_symmetric(a.drop_last(), b);
        lemma_edit_dist_symmetric(a, b.drop_last());
        lemma_edit_dist_symmetric(a.drop_last(), b.drop_last());
    }
}

/// The edit distance from any sequence to itself is zero, and the distance
/// to or from the empty sequence is the other sequence's length.
pub proof fn lemma_edit_dist_identity(a: Seq<u8>)
    ensures
        edit_dist(a, a) == 0,
        edit_dist(a, Seq::<u8>::empty()) == a.len(),
        edit_dist(Seq::<u8>::empty(), a) == a.len(),
    decreases a.len(),
{
    if a.len() == 0 {
    } else {
        lemma_edit_dist_identity(a.drop_last());
        lemma_edit_dist_bounds(a.drop_last(), a);
        lemma_edit_dist_bounds(a, a.drop_last());
    }
}

/// Computes the Levenshtein distance between two byte slices with two rolling
/// rows: O(min(m,n)) space, O(m*n) time. The shorter input is used as the
/// inner dimension. Inputs are bounded so that the distance fits in `u16`.
pub fn levenshtein_distance(s1: &[u8], s2: &[u8]) -> (r: u16)
    requires
        s1@.len() <= 0xffff,
        s2@.len() <= 0xffff,
    ensures
        r as int == edit_dist(s1@, s2@),
{
    if s1.len() == 0 {
        return s2.len() as u16;
    }
    if s2.len() == 0 {
        return s1.len() as u16;
    }
    proof {
        lemma_edit_dist_symmetric(s1@, s2@);
    }
    let (a, b) = if s1.len() <= s2.len() {
        (s1, s2)
    } else {
        (s2, s1)
    };
    let len1: usize = a.len();
    let len2: usize = b.len();

    // previous row: prev[k] == edit_dist(a[..k], b[..0]) == k
    let mut prev: Vec<u32> = Vec::new();
    let mut k: usize = 0;
    while k <= len1
        invariant
            k <= len1 + 1,
            len1 == a@.len(),
            len1 <= 0xffff,
            prev@.len() == k,
            forall|t: int| 0 <= t < k ==> prev@[t] == t,
        decreases len1 + 1 - k,
    {
        prev.push(k as u32);
        k += 1;
    }

    let mut j: usize = 1;
    while j <= len2
        invariant
            1 <= j <= len2 + 1,
            len1 == a@.len(),
            len2 == b@.len(),
            1 <= len1 <= 0xffff,
            1 <= len2 <= 0xffff,
            prev@.len() == len1 + 1,
            forall|t: int| 0 <= t <= len1 ==> prev@[t] == edit_dist(a@.take(t), b@.take(j - 1)),
        decreases len2 + 1 - j,
    {
        let mut cur: Vec<u32> = Vec::new();
        cur.push(j as u32);
        proof {
            assert(a@.take(0).len() == 0);
            assert(b@.take(j as int).len() == j);
            assert(edit_dist(a@.take(0), b@.take(j as int)) == j);
        }
        let mut i: usize = 1;
        while i <= len1
            invariant
                1 <= i <= len1 + 1,
                1 <= j <= len2,
                len1 == a@.len(),
                len2 == b@.len(),
                1 <= len1 <= 0xffff,
                1 <= len2 <= 0xffff,
                prev@.len() == len1 + 1,
                cur@.len() == i,
                forall|t: int| 0 <= t <= len1 ==> prev@[t] == edit_dist(a@.take(t), b@.take(j - 1)),
                forall|t: int| 0 <= t < i ==> cur@[t] == edit_dist(a@.take(t), b@.take(j as int)),
            decreases len1 + 1 - i,
        {
            proof {
                lemma_edit_dist_bounds(a@.take(i as int), b@.take(j - 1));
                lemma_edit_dist_bounds(a@.take(i - 1), b@.take(j as int));
                lemma_edit_dist_bounds(a@.take(i - 1), b@.take(j - 1));
            }
            let cost: u32 = if a[i - 1] == b[j - 1] {
                0
            } else {
                1
            };
            let del: u32 = prev[i] + 1;
            let ins: u32 = cur[i - 1] + 1;
            let sub: u32 = prev[i - 1] + cost;
            let best: u32 = if del <= ins && del <= sub {
                del
            } else if ins <= sub {
                ins
            } else {
                sub
            };
            proof {
                let ai = a@.take(i as int);
                let bj = b@.take(j as int);
                assert(ai.drop_last() =~= a@.take(i - 1));
                assert(bj.drop_last() =~= b@.take(j - 1));
                assert(ai.last() == a@[i - 1]);
                assert(bj.last() == b@[j - 1]);
                assert(edit_dist(ai, bj) == min3(
                    edit_dist(a@.take(i - 1), bj) + 1,
                    edit_dist(ai, b@.take(j - 1)) + 1,
                    edit_dist(a@.take(i - 1), b@.take(j - 1)) + if a@[i - 1] == b@[j - 1] {
                        0int
                    } else {
                        1int
                    },
                ));
                assert(best == edit_dist(ai, bj));
            }
            cur.push(best);
            i += 1;
        }
        prev = cur;
        j += 1;
    }
    proof {
        assert(a@.take(len1 as int) =~= a@);
        assert(b@.take(len2 as int) =~= b@);
        lemma_edit_dist_bounds(a@, b@);
    }
    prev[len1] as u16
}

} // verus!
