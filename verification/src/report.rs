//! Per-sequence report of sampled points for visualization: every computed
//! pair as a plot point, plus the largest grid index referenced, which a
//! consumer uses to scale a plot.

use vstd::prelude::*;

use crate::grid::{chromosome_records, compute_chromosome_pairs, num_points, PairRecord,
    GRID_SPACING};
use crate::ipc::ProcessError;

verus! {

/// One plotted pair: grid indices and distance.
#[derive(Clone, Copy, PartialEq, Eq, Structural, Debug)]
pub struct PlotPoint {
    pub x: u32,
    pub y: u32,
    pub d: u16,
}

/// The report one sequence contributes.
pub struct ChromosomeReport {
    pub name: String,
    pub max_idx: u32,
    pub points: Vec<PlotPoint>,
}

/// Every record of the sequence, as a plot point, in row-major order.
pub open spec fn plot_points_of(s: Seq<u8>) -> Seq<PlotPoint> {
    chromosome_records(s).map_values(
        |r: PairRecord| PlotPoint { x: r.idx1, y: r.idx2, d: r.distance },
    )
}

/// The model of a report: name, largest referenced grid index, points.
pub open spec fn report_views(rs: Seq<ChromosomeReport>) -> Seq<(Seq<char>, u32, Seq<PlotPoint>)> {
    rs.map_values(|r: ChromosomeReport| (r.name@, r.max_idx, r.points@))
}

/// The reports a list of named sequences yields, in input order: one report
/// per sequence with at least two grid points; shorter sequences contribute
/// nothing.
pub open spec fn expected_reports(chroms: Seq<(Seq<char>, Seq<u8>)>) -> Seq<
    (Seq<char>, u32, Seq<PlotPoint>),
>
    decreases chroms.len(),
{
    if chroms.len() == 0 {
        Seq::empty()
    } else {
        let pre = expected_reports(chroms.drop_last());
        let nm = chroms.last().0;
        let s = chroms.last().1;
        if num_points(s.len() as int) >= 2 {
            pre.push((nm, (num_points(s.len() as int) - 1) as u32, plot_points_of(s)))
        } else {
            pre
        }
    }
}

/// Builds the report of one sequence: all its pairs as plot points, and the
/// largest grid index any point references, which is `num_points - 1`.
pub fn build_report(name: &String, seq: &Vec<u8>) -> (r: ChromosomeReport)
    requires
        2 <= num_points(seq@.len() as int),
        num_points(seq@.len() as int) <= u32::MAX,
    ensures
        r.name@ == name@,
        r.max_idx as int == num_points(seq@.len() as int) - 1,
        r.points@ == plot_points_of(seq@),
{
    let recs = compute_chromosome_pairs(seq);
    let mut points: Vec<PlotPoint> = Vec::new();
    let mut t: usize = 0;
    while t < recs.len()
        invariant
            t <= recs@.len(),
            recs@ == chromosome_records(seq@),
            points@.len() == t,
            forall|k: int|
                0 <= k < t ==> points@[k] == (PlotPoint {
                    x: recs@[k].idx1,
                    y: recs@[k].idx2,
                    d: recs@[k].distance,
                }),
        decreases recs@.len() - t,
    {
        let rec = recs[t];
        points.push(PlotPoint { x: rec.idx1, y: rec.idx2, d: rec.distance });
        t += 1;
    }
    proof {
        assert(points@ =~= plot_points_of(seq@));
    }
    let n: usize = seq.len() / GRID_SPACING;
    ChromosomeReport { name: name.clone(), max_idx: (n - 1) as u32, points }
}

/// Builds the reports of every supplied sequence, in input order, skipping
/// sequences with fewer than two grid points. An empty list is refused;
/// nothing else can fail.
pub fn process_chromosomes_to_reports(chroms: &Vec<(String, Vec<u8>)>) -> (r: Result<
    Vec<ChromosomeReport>,
    ProcessError,
>)
    requires
        forall|k: int|
            0 <= k < chroms@.len() ==> num_points((#[trigger] chroms@[k]).1@.len() as int)
                <= u32::MAX,
    ensures
        r matches Ok(v) ==> report_views(v@) == expected_reports(chroms.deep_view()),
        (r is Err) <==> (chroms@.len() == 0),
        r is Err ==> r == Err::<Vec<ChromosomeReport>, ProcessError>(ProcessError::NoChromosomes),
{
    if chroms.len() == 0 {
        return Err(ProcessError::NoChromosomes);
    }
    let ghost all = chroms.deep_view();
    let mut out: Vec<ChromosomeReport> = Vec::new();
    let mut c: usize = 0;
    while c < chroms.len()
        invariant
            c <= chroms@.len(),
            all == chroms.deep_view(),
            forall|k: int|
                0 <= k < chroms@.len() ==> num_points((#[trigger] chroms@[k]).1@.len() as int)
                    <= u32::MAX,
            report_views(out@) == expected_reports(all.take(c as int)),
        decreases chroms@.len() - c,
    {
        let pair: &(String, Vec<u8>) = &chroms[c];
        let name: &String = &pair.0;
        let sq: &Vec<u8> = &pair.1;
        proof {
            assert(all[c as int] == (name@, sq@));
            assert(all.take(c + 1).drop_last() =~= all.take(c as int));
            assert(all.take(c + 1).last() == all[c as int]);
        }
        let n: usize = sq.len() / GRID_SPACING;
        if n >= 2 {
            let ghost before = out@;
            let rep = build_report(name, sq);
            out.push(rep);
            proof {
                assert(report_views(out@) =~= report_views(before).push(
                    (rep.name@, rep.max_idx, rep.points@),
                ));
                assert(report_views(out@) =~= expected_reports(all.take(c + 1)));
            }
        }
        c += 1;
    }
    proof {
        assert(all.take(chroms@.len() as int) =~= all);
    }
    Ok(out)
}

} // verus!
