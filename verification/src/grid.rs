//! Grid sampling: grid points spaced `GRID_SPACING` bases apart, and the
//! resolution tier / comparison-window length chosen from the genomic
//! separation of a pair of grid points.

use vstd::prelude::*;

use crate::levenshtein::{
    edit_dist, lemma_edit_dist_bounds, levenshtein_distance,
};

verus! {

/// Distance between two consecutive grid points, in bases.
pub const GRID_SPACING: usize = 1000;

/// Comparison-window length for the finest resolution tier.
pub const WINDOW_TIER_0: usize = 10;

/// Comparison-window length for the middle resolution tier.
pub const WINDOW_TIER_1: usize = 100;

/// Separations up to this many bases use the finest tier.
pub const DIST_THRESHOLD_1: usize = 100000;

/// Separations up to this many bases (and above `DIST_THRESHOLD_1`) use the
/// middle tier.
pub const DIST_THRESHOLD_2: usize = 1000000;

/// Resolution tier for a genomic separation `delta` (in bases).
pub open spec fn tier_of(delta: int) -> u8 {
    if delta <= DIST_THRESHOLD_1 {
        0
    } else if delta <= DIST_THRESHOLD_2 {
        1
    } else {
        2
    }
}

/// Comparison-window length for a genomic separation `delta` (in bases).
pub open spec fn window_of(delta: int) -> int {
    if delta <= DIST_THRESHOLD_1 {
        WINDOW_TIER_0 as int
    } else if delta <= DIST_THRESHOLD_2 {
        WINDOW_TIER_1 as int
    } else {
        GRID_SPACING as int
    }
}

/// Window length of a resolution tier.
pub open spec fn window_of_tier(tier: u8) -> int {
    if tier == 0 {
        WINDOW_TIER_0 as int
    } else if tier == 1 {
        WINDOW_TIER_1 as int
    } else {
        GRID_SPACING as int
    }
}

/// The window of a separation is the window of its tier, and never exceeds
/// the grid spacing.
pub proof fn lemma_window_of_tier(delta: int)
    ensures
        window_of(delta) == window_of_tier(tier_of(delta)),
        0 < window_of(delta) <= GRID_SPACING,
{
}

/// Resolution tier and window length for the separation `delta`, as the pair
/// `(window, tier)`.
pub fn window_params(delta: usize) -> (r: (usize, u8))
    ensures
        r.0 == window_of(delta as int),
        r.1 == tier_of(delta as int),
{
    if delta <= DIST_THRESHOLD_1 {
        (WINDOW_TIER_0, 0u8)
    } else if delta <= DIST_THRESHOLD_2 {
        (WINDOW_TIER_1, 1u8)
    } else {
        (GRID_SPACING, 2u8)
    }
}

/// One computed pair: grid indices, window edit distance, resolution tier.
#[derive(Clone, Copy, PartialEq, Eq, Structural, Debug)]
pub struct PairRecord {
    pub idx1: u32,
    pub idx2: u32,
    pub distance: u16,
    pub resolution: u8,
}

/// Number of grid points of a sequence of length `len`.
pub open spec fn num_points(len: int) -> int {
    len / (GRID_SPACING as int)
}

/// The record the engine emits for the grid-point pair `(i, j)` of sequence
/// `s`: the edit distance between the two windows of length
/// `window_of((j - i) * GRID_SPACING)` starting at the two grid positions.
pub open spec fn record_for(s: Seq<u8>, i: int, j: int) -> PairRecord {
    let delta = (j - i) * (GRID_SPACING as int);
    let w = window_of(delta);
    let p1 = i * (GRID_SPACING as int);
    let p2 = j * (GRID_SPACING as int);
    PairRecord {
        idx1: i as u32,
        idx2: j as u32,
        distance: edit_dist(s.subrange(p1, p1 + w), s.subrange(p2, p2 + w)) as u16,
        resolution: tier_of(delta),
    }
}

/// The records of one row of the upper triangle: `(i, j)` for all
/// `i < j < num_points`, ascending in `j`.
pub open spec fn row_records(s: Seq<u8>, i: int) -> Seq<PairRecord> {
    if i + 1 >= num_points(s.len() as int) {
        Seq::empty()
    } else {
        Seq::new((num_points(s.len() as int) - i - 1) as nat, |k: int| record_for(s, i, i + 1 + k))
    }
}

/// The rows `0 .. m` of the upper triangle, concatenated in row-major order.
pub open spec fn records_upto(s: Seq<u8>, m: int) -> Seq<PairRecord>
    decreases m,
{
    if m <= 0 {
        Seq::empty()
    } else {
        records_upto(s, m - 1) + row_records(s, m - 1)
    }
}

/// All records one sequence contributes, in row-major order: outer index `i`
/// ascending, inner index `j` ascending.
pub open spec fn chromosome_records(s: Seq<u8>) -> Seq<PairRecord> {
    records_upto(s, num_points(s.len() as int))
}

/// A sequence of `num_points` grid points reaches exactly
/// `num_points * GRID_SPACING` bases, which all lie inside the sequence.
pub proof fn lemma_grid_fits(len: int)
    requires
        len >= 0,
    ensures
        0 <= num_points(len),
        num_points(len) * (GRID_SPACING as int) <= len,
{
    vstd::arithmetic::div_mod::lemma_fundamental_div_mod(len, GRID_SPACING as int);
    vstd::arithmetic::div_mod::lemma_remainder(len, GRID_SPACING as int);
}

/// Every window sliced for a valid pair `(i, j)` lies inside the sequence,
/// and the emitted distance is bounded by the window length of the pair's
/// resolution tier.
pub proof fn lemma_record_for_bounds(s: Seq<u8>, i: int, j: int)
    requires
        0 <= i < j < num_points(s.len() as int),
        num_points(s.len() as int) <= u32::MAX,
    ensures
        record_for(s, i, j).distance <= window_of_tier(record_for(s, i, j).resolution),
        record_for(s, i, j).idx1 == i,
        record_for(s, i, j).idx2 == j,
        record_for(s, i, j).distance as int == edit_dist(
            s.subrange(i * (GRID_SPACING as int), i * (GRID_SPACING as int) + window_of((j - i) * (GRID_SPACING as int))),
            s.subrange(j * (GRID_SPACING as int), j * (GRID_SPACING as int) + window_of((j - i) * (GRID_SPACING as int))),
        ),
{
    let n = num_points(s.len() as int);
    let g = GRID_SPACING as int;
    let delta = (j - i) * g;
    let w = window_of(delta);
    lemma_grid_fits(s.len() as int);
    lemma_window_of_tier(delta);
    assert(j * g + w <= n * g) by (nonlinear_arith)
        requires
            j < n,
            0 < w <= g,
    ;
    assert(i * g + w <= j * g) by (nonlinear_arith)
        requires
            i < j,
            0 < w <= g,
    ;
    assert(i * g >= 0) by (nonlinear_arith)
        requires
            i >= 0,
            g > 0,
    ;
    let w1 = s.subrange(i * g, i * g + w);
    let w2 = s.subrange(j * g, j * g + w);
    assert(w1.len() == w && w2.len() == w);
    lemma_edit_dist_bounds(w1, w2);
}

/// `rs` holds a record for the grid-point pair `(i, j)`.
pub open spec fn has_pair(rs: Seq<PairRecord>, i: int, j: int) -> bool {
    exists|k: int| 0 <= k < rs.len() && rs[k].idx1 == i && rs[k].idx2 == j
}

/// Strict row-major order: `r1` comes before `r2`.
pub open spec fn row_major_lt(r1: PairRecord, r2: PairRecord) -> bool {
    r1.idx1 < r2.idx1 || (r1.idx1 == r2.idx1 && r1.idx2 < r2.idx2)
}

proof fn lemma_records_upto_shape(s: Seq<u8>, m: int)
    requires
        0 <= m <= num_points(s.len() as int),
        num_points(s.len() as int) <= u32::MAX,
    ensures
        forall|k: int| 0 <= k < records_upto(s, m).len() ==> {
            &&& 0 <= (#[trigger] records_upto(s, m)[k]).idx1 < m
            &&& records_upto(s, m)[k].idx1 < records_upto(s, m)[k].idx2
            &&& records_upto(s, m)[k].idx2 < num_points(s.len() as int)
            &&& records_upto(s, m)[k] == record_for(
                s,
                records_upto(s, m)[k].idx1 as int,
                records_upto(s, m)[k].idx2 as int,
            )
        },
        forall|i: int, j: int|
            0 <= i < m && i < j < num_points(s.len() as int) ==> #[trigger] has_pair(
                records_upto(s, m),
                i,
                j,
            ),
        forall|k1: int, k2: int|
            0 <= k1 < k2 < records_upto(s, m).len() ==> row_major_lt(
                #[trigger] records_upto(s, m)[k1],
                #[trigger] records_upto(s, m)[k2],
            ),
    decreases m,
{
    if m <= 0 {
    } else {
        lemma_records_upto_shape(s, m - 1);
        let n = num_points(s.len() as int);
        let prev = records_upto(s, m - 1);
        let row = row_records(s, m - 1);
        let rs = records_upto(s, m);
        assert(rs == prev + row);
        assert forall|k: int| 0 <= k < rs.len() implies {
            &&& 0 <= (#[trigger] rs[k]).idx1 < m
            &&& rs[k].idx1 < rs[k].idx2
            &&& rs[k].idx2 < n
            &&& rs[k] == record_for(s, rs[k].idx1 as int, rs[k].idx2 as int)
        } by {
            if k < prev.len() {
                assert(rs[k] == prev[k]);
            } else {
                let t = k - prev.len();
                assert(rs[k] == row[t]);
                assert(row[t] == record_for(s, m - 1, m + t));
            }
        }
        assert forall|i: int, j: int| 0 <= i < m && i < j < n implies #[trigger] has_pair(
            rs,
            i,
            j,
        ) by {
            if i < m - 1 {
                assert(has_pair(prev, i, j));
                let k = choose|k: int| 0 <= k < prev.len() && prev[k].idx1 == i && prev[k].idx2
                    == j;
                assert(rs[k] == prev[k]);
            } else {
                let t = j - i - 1;
                assert(row[t] == record_for(s, m - 1, m + t));
                assert(rs[prev.len() + t] == row[t]);
            }
        }
        assert forall|k1: int, k2: int| 0 <= k1 < k2 < rs.len() implies row_major_lt(
            #[trigger] rs[k1],
            #[trigger] rs[k2],
        ) by {
            if k2 < prev.len() {
                assert(rs[k1] == prev[k1]);
                assert(rs[k2] == prev[k2]);
            } else if k1 < prev.len() {
                assert(rs[k1] == prev[k1]);
                assert(rs[k2] == row[k2 - prev.len()]);
                assert(rs[k2] == record_for(s, m - 1, m + (k2 - prev.len())));
            } else {
                assert(rs[k1] == record_for(s, m - 1, m + (k1 - prev.len())));
                assert(rs[k2] == record_for(s, m - 1, m + (k2 - prev.len())));
            }
        }
    }
}

/// LAW: the emitted pair set is exactly the upper triangle
/// `{(i, j) : 0 <= i < j < num_points}` — no duplicates, no omissions.
/// Together with `lemma_pairs_row_major` the pairs are also strictly
/// row-major ordered, so each occurs exactly once.
pub proof fn lemma_pair_coverage(s: Seq<u8>, i: int, j: int)
    requires
        num_points(s.len() as int) <= u32::MAX,
    ensures
        has_pair(chromosome_records(s), i, j) <==> (0 <= i < j < num_points(s.len() as int)),
{
    lemma_grid_fits(s.len() as int);
    lemma_records_upto_shape(s, num_points(s.len() as int));
}

/// LAW: the emitted records are strictly row-major ordered (outer index
/// ascending, inner index ascending for a fixed outer index), so no pair is
/// emitted twice.
pub proof fn lemma_pairs_row_major(s: Seq<u8>, k1: int, k2: int)
    requires
        num_points(s.len() as int) <= u32::MAX,
        0 <= k1 < k2 < chromosome_records(s).len(),
    ensures
        row_major_lt(chromosome_records(s)[k1], chromosome_records(s)[k2]),
{
    lemma_grid_fits(s.len() as int);
    lemma_records_upto_shape(s, num_points(s.len() as int));
}

/// LAW: every emitted distance is bounded by the window length of its
/// resolution tier.
pub proof fn lemma_distance_bounded(s: Seq<u8>, k: int)
    requires
        num_points(s.len() as int) <= u32::MAX,
        0 <= k < chromosome_records(s).len(),
    ensures
        chromosome_records(s)[k].distance <= window_of_tier(chromosome_records(s)[k].resolution),
{
    lemma_grid_fits(s.len() as int);
    lemma_records_upto_shape(s, num_points(s.len() as int));
    let r = chromosome_records(s)[k];
    lemma_record_for_bounds(s, r.idx1 as int, r.idx2 as int);
}

/// Computes the records of row `i`: the pairs `(i, j)` for all
/// `i < j < num_points`, ascending in `j`. This is the unit of work one
/// parallel worker performs.
pub fn compute_row(seq: &Vec<u8>, i: usize) -> (out: Vec<PairRecord>)
    requires
        (i as int) < num_points(seq@.len() as int),
        num_points(seq@.len() as int) <= u32::MAX,
    ensures
        out@ == row_records(seq@, i as int),
{
    let n: usize = seq.len() / GRID_SPACING;
    proof {
        lemma_grid_fits(seq@.len() as int);
        assert(i * GRID_SPACING + GRID_SPACING <= n * GRID_SPACING) by (nonlinear_arith)
            requires
                (i as int) < (n as int),
                GRID_SPACING > 0,
        ;
    }
    let pos1: usize = i * GRID_SPACING;
    let mut out: Vec<PairRecord> = Vec::new();
    let mut j: usize = i + 1;
    while j < n
        invariant
            i + 1 <= j <= if n > i + 1 { n as int } else { i + 1 },
            n == num_points(seq@.len() as int),
            n <= u32::MAX,
            (i as int) < n,
            pos1 == i * GRID_SPACING,
            (n as int) * (GRID_SPACING as int) <= seq@.len(),
            seq@.len() <= usize::MAX,
            out@.len() == j - i - 1,
            forall|t: int| 0 <= t < out@.len() ==> out@[t] == record_for(seq@, i as int, i + 1 + t),
        decreases n - j,
    {
        proof {
            assert(j * GRID_SPACING + GRID_SPACING <= n * GRID_SPACING) by (nonlinear_arith)
                requires
                    (j as int) < (n as int),
                    GRID_SPACING > 0,
            ;
            assert(pos1 + GRID_SPACING <= j * GRID_SPACING) by (nonlinear_arith)
                requires
                    pos1 == (i as int) * (GRID_SPACING as int),
                    (i as int) < (j as int),
                    GRID_SPACING > 0,
            ;
        }
        let pos2: usize = j * GRID_SPACING;
        let delta: usize = pos2 - pos1;
        let (w, tier) = window_params(delta);
        proof {
            lemma_window_of_tier(delta as int);
        }
        let w1: &[u8] = &seq.as_slice()[pos1..pos1 + w];
        let w2: &[u8] = &seq.as_slice()[pos2..pos2 + w];
        let d: u16 = levenshtein_distance(w1, w2);
        let rec = PairRecord { idx1: i as u32, idx2: j as u32, distance: d, resolution: tier };
        proof {
            lemma_record_for_bounds(seq@, i as int, j as int);
            assert(delta as int == ((j as int) - (i as int)) * (GRID_SPACING as int)) by (nonlinear_arith)
                requires
                    delta == (j as int) * (GRID_SPACING as int) - (i as int) * (GRID_SPACING as int),
            ;
            assert(rec == record_for(seq@, i as int, j as int));
        }
        out.push(rec);
        j += 1;
    }
    proof {
        assert(out@ =~= row_records(seq@, i as int));
    }
    out
}

/// Computes every record of one sequence, in row-major order. A sequence
/// with fewer than two grid points contributes nothing.
pub fn compute_chromosome_pairs(seq: &Vec<u8>) -> (out: Vec<PairRecord>)
    requires
        num_points(seq@.len() as int) <= u32::MAX,
    ensures
        out@ == chromosome_records(seq@),
{
    let n: usize = seq.len() / GRID_SPACING;
    let mut out: Vec<PairRecord> = Vec::new();
    if n < 2 {
        proof {
            assert(records_upto(seq@, 0) =~= Seq::<PairRecord>::empty());
            assert(records_upto(seq@, 1) =~= Seq::<PairRecord>::empty());
            assert(out@ =~= chromosome_records(seq@));
        }
        return out;
    }
    let mut i: usize = 0;
    while i < n
        invariant
            i <= n,
            n == num_points(seq@.len() as int),
            n <= u32::MAX,
            out@ == records_upto(seq@, i as int),
        decreases n - i,
    {
        let mut row = compute_row(seq, i);
        out.append(&mut row);
        i += 1;
    }
    out
}

} // verus!
