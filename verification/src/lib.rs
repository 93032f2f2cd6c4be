//! Genome self-similarity engine: samples positions of a sequence on a fixed
//! grid, measures a local edit distance between short windows at every pair of
//! grid positions, and streams the resulting records out as columnar batches.

use vstd::prelude::*;

pub mod batch;
pub mod fasta;
pub mod grid;
pub mod ipc;
pub mod levenshtein;
pub mod report;

use crate::batch::EMBEDDED_BATCH_SIZE;
use crate::fasta::{load_chromosomes_from_bytes, parse_fasta_spec, supplied_ok, supplied_text};
use crate::grid::{num_points, GRID_SPACING};
use crate::ipc::{expected_ipc_bytes, names_fit, write_chromosomes_ipc, ProcessError};
use crate::report::{
    expected_reports, process_chromosomes_to_reports, report_views, ChromosomeReport,
};

verus! {

/// Every sequence is short enough for its grid indices to fit in 32 bits.
pub open spec fn all_fit(chroms: Seq<(Seq<char>, Seq<u8>)>) -> bool {
    forall|k: int|
        0 <= k < chroms.len() ==> num_points((#[trigger] chroms[k]).1.len() as int) <= u32::MAX
}

fn check_fit(chroms: &Vec<(String, Vec<u8>)>) -> (b: bool)
    ensures
        b == all_fit(chroms.deep_view()),
{
    let ghost all = chroms.deep_view();
    let mut c: usize = 0;
    while c < chroms.len()
        invariant
            c <= chroms@.len(),
            all == chroms.deep_view(),
            forall|k: int|
                0 <= k < c ==> num_points((#[trigger] all[k]).1.len() as int) <= u32::MAX,
        decreases chroms@.len() - c,
    {
        let pair: &(String, Vec<u8>) = &chroms[c];
        proof {
            assert(all[c as int].1 == pair.1@);
        }
        if pair.1.len() / GRID_SPACING > (u32::MAX as usize) {
            return false;
        }
        c += 1;
    }
    true
}

/// Computes the whole self-similarity dataset of a FASTA buffer and returns
/// it as one finished columnar container: per sequence in input order, every
/// grid-pair record in row-major order, batched; with more than one sequence
/// each row is tagged with its sequence's name, with exactly one the name
/// column is absent. The run succeeds on every readable input whose sequences
/// respect the machine limits, and each failure names its cause.
pub fn process_fasta_to_ipc_bytes(fasta_content: &[u8], is_gzipped: bool) -> (r: Result<
    Vec<u8>,
    ProcessError,
>)
    ensures
        ({
            let chroms = parse_fasta_spec(supplied_text(fasta_content@, is_gzipped));
            let readable = supplied_ok(fasta_content@, is_gzipped);
            &&& (r matches Ok(bytes) ==> bytes@ == expected_ipc_bytes(
                chroms,
                EMBEDDED_BATCH_SIZE as int,
            ))
            &&& ((r is Ok) <==> (readable && chroms.len() > 0 && all_fit(chroms) && (chroms.len()
                == 1 || names_fit(chroms))))
            &&& ((r matches Err(e) && e is Decompress) <==> !readable)
            &&& ((r matches Err(e) && e is NoChromosomes) <==> (readable && chroms.len() == 0))
            &&& ((r matches Err(e) && e is TooManyGridPoints) <==> (readable && chroms.len() > 0
                && !all_fit(chroms)))
            &&& ((r matches Err(e) && e is NameTooLong) <==> (readable && chroms.len() > 1
                && all_fit(chroms) && !names_fit(chroms)))
        }),
{
    let chroms = match load_chromosomes_from_bytes(fasta_content, is_gzipped) {
        Ok(v) => v,
        Err(e) => { return Err(e) },
    };
    if !check_fit(&chroms) {
        return Err(ProcessError::TooManyGridPoints);
    }
    proof {
        assert forall|k: int|
            0 <= k < chroms@.len() implies num_points(
            (#[trigger] chroms@[k]).1@.len() as int,
        ) <= u32::MAX by {
            assert(chroms.deep_view()[k] == (chroms@[k].0@, chroms@[k].1@));
        }
    }
    write_chromosomes_ipc(&chroms)
}

/// Computes the per-sequence visualization reports of a FASTA buffer: for
/// every sequence with at least two grid points, in input order, all its
/// pairs as plot points and the largest grid index referenced. The run
/// succeeds on every readable, non-empty input whose sequences respect the
/// machine limits, and each failure names its cause.
pub fn process_fasta_to_reports(fasta_content: &[u8], is_gzipped: bool) -> (r: Result<
    Vec<ChromosomeReport>,
    ProcessError,
>)
    ensures
        ({
            let chroms = parse_fasta_spec(supplied_text(fasta_content@, is_gzipped));
            let readable = supplied_ok(fasta_content@, is_gzipped);
            &&& (r matches Ok(v) ==> report_views(v@) == expected_reports(chroms))
            &&& ((r is Ok) <==> (readable && chroms.len() > 0 && all_fit(chroms)))
            &&& ((r matches Err(e) && e is Decompress) <==> !readable)
            &&& ((r matches Err(e) && e is NoChromosomes) <==> (readable && chroms.len() == 0))
            &&& ((r matches Err(e) && e is TooManyGridPoints) <==> (readable && chroms.len() > 0
                && !all_fit(chroms)))
        }),
{
    let chroms = match load_chromosomes_from_bytes(fasta_content, is_gzipped) {
        Ok(v) => v,
        Err(e) => { return Err(e) },
    };
    if !check_fit(&chroms) {
        return Err(ProcessError::TooManyGridPoints);
    }
    proof {
        assert forall|k: int|
            0 <= k < chroms@.len() implies num_points(
            (#[trigger] chroms@[k]).1@.len() as int,
        ) <= u32::MAX by {
            assert(chroms.deep_view()[k] == (chroms@[k].0@, chroms@[k].1@));
        }
    }
    process_chromosomes_to_reports(&chroms)
}

} // verus!
