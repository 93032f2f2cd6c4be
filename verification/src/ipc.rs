//! Streaming sink: serializes batches of records into a self-describing
//! columnar container (the Arrow IPC file format) held in an in-memory
//! buffer. The sink owns the container exclusively; batches are written in
//! arrival order and the container is finalized at the end. A run over one
//! sequence writes four columns; a run over several adds a leading
//! `chromosome` column naming each row's sequence.

use vstd::prelude::*;

use arrow::array::{ArrayRef, StringArray, UInt16Array, UInt32Array, UInt8Array};
use arrow::datatypes::{DataType, Field, Schema};
use arrow::ipc::writer::FileWriter;
use arrow::record_batch::RecordBatch;
use std::sync::Arc;

use crate::batch::{
    batch_views, chunked, sequence_batches, DistanceDataBatch, EMBEDDED_BATCH_SIZE,
};
use crate::grid::{chromosome_records, num_points, PairRecord};
use vstd::string::StrSliceExecFns;

verus! {

/// One serialized batch, as a model: the sequence name its rows are tagged
/// with — absent in a single-sequence container, which has no name column —
/// and its rows `(idx1, idx2, distance, resolution)`.
pub type IpcBatch = (Option<Seq<char>>, Seq<(u32, u32, u16, u8)>);

/// Why a run failed.
#[derive(Debug, Clone, PartialEq, Eq)]
pub enum ProcessError {
    /// The input held no sequences at all.
    NoChromosomes,
    /// The compressed input could not be decoded.
    Decompress(String),
    /// A sequence is so long that a grid index would not fit in 32 bits.
    TooManyGridPoints,
    /// A sequence name is too long for the container's string column.
    NameTooLong,
}

/// Longest sequence name the multi-sequence container accepts, in characters:
/// one batch's name column (the name repeated once per row, at most four
/// UTF-8 bytes per character, at most `EMBEDDED_BATCH_SIZE` rows) must stay
/// within the string column's 32-bit offsets.
pub const MAX_NAME_CHARS: usize = 131071;

/// Every sequence name is short enough for the container's string column.
pub open spec fn names_fit(chroms: Seq<(Seq<char>, Seq<u8>)>) -> bool {
    forall|k: int| 0 <= k < chroms.len() ==> (#[trigger] chroms[k]).0.len() <= MAX_NAME_CHARS
}

#[verifier::external_type_specification]
#[verifier::external_body]
#[verifier::reject_recursive_types(W)]
pub struct ExFileWriter<W>(FileWriter<W>);

/// The column names of the container a writer was created with.
pub uninterp spec fn ipc_schema(w: FileWriter<Vec<u8>>) -> Seq<Seq<char>>;

/// The batches written to the container so far, in order.
pub uninterp spec fn ipc_batches(w: FileWriter<Vec<u8>>) -> Seq<IpcBatch>;

/// The bytes of a finished container: with the writer's fixed default
/// options, the encoding is a function of the schema's column names and of
/// the batches written, in order.
pub uninterp spec fn ipc_encoding(schema: Seq<Seq<char>>, batches: Seq<IpcBatch>) -> Seq<u8>;

/// The container schema of a run over several sequences.
pub open spec fn output_schema_multi() -> Seq<Seq<char>> {
    seq!["chromosome"@, "idx1"@, "idx2"@, "distance"@, "type"@]
}

/// The container schema of a run over a single sequence: no name column.
pub open spec fn output_schema_single() -> Seq<Seq<char>> {
    seq!["idx1"@, "idx2"@, "distance"@, "type"@]
}

/// The rows of a run of records.
pub open spec fn tuple_rows(rs: Seq<PairRecord>) -> Seq<(u32, u32, u16, u8)> {
    rs.map_values(|r: PairRecord| (r.idx1, r.idx2, r.distance, r.resolution))
}

/// Relies on arrow-ipc's `FileWriter::try_new`: creates a writer over a fresh
/// in-memory buffer for a container of five non-nullable columns — one utf8
/// column and four unsigned integer columns (32, 32, 16 and 8 bits wide),
/// named by the caller in that order — and writes the container header.
/// These column types are all supported by the format, and writing into a
/// `Vec<u8>` cannot fail, so creation always succeeds; nothing has been
/// written beyond the header.
#[verifier::external_body]
fn ipc_writer_new_named(c0: &str, c1: &str, c2: &str, c3: &str, c4: &str) -> (r: Result<
    FileWriter<Vec<u8>>,
    String,
>)
    ensures
        r is Ok,
        r matches Ok(w) ==> ipc_schema(w) == seq![c0@, c1@, c2@, c3@, c4@] && ipc_batches(w)
            == Seq::<IpcBatch>::empty(),
{
    let schema = Schema::new(vec![
        Field::new(c0, DataType::Utf8, false),
        Field::new(c1, DataType::UInt32, false),
        Field::new(c2, DataType::UInt32, false),
        Field::new(c3, DataType::UInt16, false),
        Field::new(c4, DataType::UInt8, false),
    ]);
    FileWriter::try_new(Vec::new(), &schema).map_err(|e| e.to_string())
}

/// Relies on arrow-ipc's `FileWriter::try_new`, as `ipc_writer_new_named`
/// does, but for the four-column container of a single-sequence run: the four
/// unsigned integer columns and no name column.
#[verifier::external_body]
fn ipc_writer_new_plain(c1: &str, c2: &str, c3: &str, c4: &str) -> (r: Result<
    FileWriter<Vec<u8>>,
    String,
>)
    ensures
        r is Ok,
        r matches Ok(w) ==> ipc_schema(w) == seq![c1@, c2@, c3@, c4@] && ipc_batches(w)
            == Seq::<IpcBatch>::empty(),
{
    let schema = Schema::new(vec![
        Field::new(c1, DataType::UInt32, false),
        Field::new(c2, DataType::UInt32, false),
        Field::new(c3, DataType::UInt16, false),
        Field::new(c4, DataType::UInt8, false),
    ]);
    FileWriter::try_new(Vec::new(), &schema).map_err(|e| e.to_string())
}

/// Relies on arrow's `RecordBatch::try_new` and arrow-ipc's
/// `FileWriter::write`: appends to the five-column container exactly one
/// record batch whose rows are the accumulator's records in order, each row
/// tagged with `name`. The name column repeats `name` once per row; the
/// requires keeps its total UTF-8 bytes (at most four per character) within
/// the string column's 32-bit offsets, which rules out the documented panic
/// of `StringArray::from_iter_values`. The requires also pins the writer to
/// the five-column schema, so the columns are as many as the schema asks,
/// equally long, typed as it asks and hold no nulls; a writer this crate
/// holds is never finished (finishing consumes it in
/// `ipc_writer_into_bytes`), so with the in-memory buffer the call always
/// succeeds.
#[verifier::external_body]
fn ipc_write_batch(w: &mut FileWriter<Vec<u8>>, name: &str, batch: &DistanceDataBatch) -> (r:
    Result<(), String>)
    requires
        ipc_schema(*old(w)) == output_schema_multi(),
        batch.wf(),
        batch.records().len() >= 1,
        4 * name@.len() * batch.records().len() < 0x80000000,
    ensures
        r is Ok,
        ipc_batches(*final(w)) == ipc_batches(*old(w)).push(
            (Some(name@), tuple_rows(batch.records())),
        ),
        ipc_schema(*final(w)) == ipc_schema(*old(w)),
{
    let names = StringArray::from_iter_values(std::iter::repeat(name).take(batch.idx1.len()));
    let cols: Vec<ArrayRef> = vec![
        Arc::new(names),
        Arc::new(UInt32Array::from(batch.idx1.clone())),
        Arc::new(UInt32Array::from(batch.idx2.clone())),
        Arc::new(UInt16Array::from(batch.dist_val.clone())),
        Arc::new(UInt8Array::from(batch.dist_type.clone())),
    ];
    match RecordBatch::try_new(w.schema().clone(), cols) {
        Ok(rb) => w.write(&rb).map_err(|e| e.to_string()),
        Err(e) => Err(e.to_string()),
    }
}

/// Relies on arrow's `RecordBatch::try_new` and arrow-ipc's
/// `FileWriter::write`, as `ipc_write_batch` does, but for the container of a
/// single-sequence run: the requires pins the writer to that four-column
/// schema, and with no name column no size bound is needed, so the call
/// always succeeds on a writer this crate holds.
#[verifier::external_body]
fn ipc_write_batch_plain(w: &mut FileWriter<Vec<u8>>, batch: &DistanceDataBatch) -> (r: Result<
    (),
    String,
>)
    requires
        ipc_schema(*old(w)) == output_schema_single(),
        batch.wf(),
        batch.records().len() >= 1,
    ensures
        r is Ok,
        ipc_batches(*final(w)) == ipc_batches(*old(w)).push(
            (Option::<Seq<char>>::None, tuple_rows(batch.records())),
        ),
        ipc_schema(*final(w)) == ipc_schema(*old(w)),
{
    let cols: Vec<ArrayRef> = vec![
        Arc::new(UInt32Array::from(batch.idx1.clone())),
        Arc::new(UInt32Array::from(batch.idx2.clone())),
        Arc::new(UInt16Array::from(batch.dist_val.clone())),
        Arc::new(UInt8Array::from(batch.dist_type.clone())),
    ];
    match RecordBatch::try_new(w.schema().clone(), cols) {
        Ok(rb) => w.write(&rb).map_err(|e| e.to_string()),
        Err(e) => Err(e.to_string()),
    }
}

/// Relies on arrow-ipc's `FileWriter::into_inner`: finishes the container
/// (end-of-stream marker, footer, trailing magic) and hands back the buffer.
/// The writer was not finished before (finishing consumes it, here), and the
/// buffer's writes are infallible, so the call always succeeds.
#[verifier::external_body]
fn ipc_writer_into_bytes(w: FileWriter<Vec<u8>>) -> (r: Result<Vec<u8>, String>)
    ensures
        r is Ok,
        r matches Ok(bytes) ==> bytes@ == ipc_encoding(ipc_schema(w), ipc_batches(w)),
{
    w.into_inner().map_err(|e| e.to_string())
}

/// The batches one sequence contributes to the multi-sequence container: its
/// records in row-major order, chunked at `cap`, every row tagged with the
/// sequence name.
pub open spec fn chrom_batches(name: Seq<char>, s: Seq<u8>, cap: int) -> Seq<IpcBatch> {
    chunked(chromosome_records(s), cap).map_values(
        |rows: Seq<PairRecord>| (Some(name), tuple_rows(rows)),
    )
}

/// The batches of a single-sequence container: the same chunking, untagged.
pub open spec fn single_batches(s: Seq<u8>, cap: int) -> Seq<IpcBatch> {
    chunked(chromosome_records(s), cap).map_values(
        |rows: Seq<PairRecord>| (Option::<Seq<char>>::None, tuple_rows(rows)),
    )
}

/// The batches a list of named sequences contributes to the multi-sequence
/// container, in input order.
pub open spec fn expected_batches(chroms: Seq<(Seq<char>, Seq<u8>)>, cap: int) -> Seq<IpcBatch>
    decreases chroms.len(),
{
    if chroms.len() == 0 {
        Seq::empty()
    } else {
        expected_batches(chroms.drop_last(), cap) + chrom_batches(
            chroms.last().0,
            chroms.last().1,
            cap,
        )
    }
}

/// The finished container a list of sequences yields: four columns holding
/// the single sequence's records, or five columns — a name column first —
/// when the run spans more than one sequence.
pub open spec fn expected_ipc_bytes(chroms: Seq<(Seq<char>, Seq<u8>)>, cap: int) -> Seq<u8> {
    if chroms.len() == 1 {
        ipc_encoding(output_schema_single(), single_batches(chroms[0].1, cap))
    } else {
        ipc_encoding(output_schema_multi(), expected_batches(chroms, cap))
    }
}

proof fn lemma_chunked_wf(rs: Seq<PairRecord>, cap: int)
    requires
        cap >= 1,
    ensures
        forall|k: int|
            0 <= k < chunked(rs, cap).len() ==> 1 <= (#[trigger] chunked(rs, cap)[k]).len() <= cap,
    decreases rs.len(),
{
    if rs.len() == 0 {
    } else if rs.len() <= cap {
    } else {
        lemma_chunked_wf(rs.skip(cap), cap);
        assert forall|k: int| 0 <= k < chunked(rs, cap).len() implies 1 <= (#[trigger] chunked(
            rs,
            cap,
        )[k]).len() <= cap by {
            if k > 0 {
                assert(chunked(rs, cap)[k] == chunked(rs.skip(cap), cap)[k - 1]);
            }
        }
    }
}

fn check_names(chroms: &Vec<(String, Vec<u8>)>) -> (b: bool)
    ensures
        b == names_fit(chroms.deep_view()),
{
    let ghost all = chroms.deep_view();
    let mut c: usize = 0;
    while c < chroms.len()
        invariant
            c <= chroms@.len(),
            all == chroms.deep_view(),
            forall|k: int| 0 <= k < c ==> (#[trigger] all[k]).0.len() <= MAX_NAME_CHARS,
        decreases chroms@.len() - c,
    {
        let pair: &(String, Vec<u8>) = &chroms[c];
        proof {
            assert(all[c as int].0 == pair.0@);
        }
        if pair.0.as_str().unicode_len() > MAX_NAME_CHARS {
            return false;
        }
        c += 1;
    }
    true
}

/// Serializes every record of every supplied sequence into one container:
/// per sequence in input order, its records in row-major order, chunked into
/// batches; with more than one sequence every row is tagged with its
/// sequence's name, with exactly one the name column is absent. An empty
/// list is refused, as is — on a multi-sequence run — a name too long for
/// the string column; nothing else can fail. A sequence with fewer than two
/// grid points contributes nothing.
pub fn write_chromosomes_ipc(chroms: &Vec<(String, Vec<u8>)>) -> (r: Result<Vec<u8>, ProcessError>)
    requires
        forall|k: int|
            0 <= k < chroms@.len() ==> num_points((#[trigger] chroms@[k]).1@.len() as int)
                <= u32::MAX,
    ensures
        r matches Ok(bytes) ==> bytes@ == expected_ipc_bytes(
            chroms.deep_view(),
            EMBEDDED_BATCH_SIZE as int,
        ),
        (r is Ok) <==> (chroms@.len() > 0 && (chroms@.len() == 1 || names_fit(
            chroms.deep_view(),
        ))),
        (chroms@.len() == 0) <==> (r matches Err(e) && e == ProcessError::NoChromosomes),
        (r matches Err(e) && e is NameTooLong) <==> (chroms@.len() > 1 && !names_fit(
            chroms.deep_view(),
        )),
        r matches Err(e) ==> (e is NoChromosomes || e is NameTooLong),
{
    let ghost all = chroms.deep_view();
    let ghost cap = EMBEDDED_BATCH_SIZE as int;
    if chroms.len() == 0 {
        return Err(ProcessError::NoChromosomes);
    }
    if chroms.len() == 1 {
        let pair: &(String, Vec<u8>) = &chroms[0];
        let sq: &Vec<u8> = &pair.1;
        proof {
            assert(all[0].1 == sq@);
        }
        let batches = sequence_batches(sq, EMBEDDED_BATCH_SIZE);
        let ghost cb = single_batches(sq@, cap);
        proof {
            lemma_chunked_wf(chromosome_records(sq@), cap);
        }
        let mut w = ipc_writer_new_plain("idx1", "idx2", "distance", "type").unwrap();
        let mut b: usize = 0;
        while b < batches.len()
            invariant
                b <= batches@.len(),
                cap == EMBEDDED_BATCH_SIZE as int,
                batch_views(batches@) == chunked(chromosome_records(sq@), cap),
                cb == single_batches(sq@, cap),
                forall|k: int| 0 <= k < batches@.len() ==> (#[trigger] batches@[k]).wf(),
                forall|k: int|
                    0 <= k < chunked(chromosome_records(sq@), cap).len() ==> 1 <= (
                    #[trigger] chunked(chromosome_records(sq@), cap)[k]).len() <= cap,
                ipc_schema(w) == output_schema_single(),
                ipc_batches(w) == cb.take(b as int),
            decreases batches@.len() - b,
        {
            proof {
                assert(batches@[b as int].records() == batch_views(batches@)[b as int]);
                assert(cb[b as int] == (
                    Option::<Seq<char>>::None,
                    tuple_rows(batches@[b as int].records()),
                ));
            }
            ipc_write_batch_plain(&mut w, &batches[b]).unwrap();
            proof {
                assert(cb.take(b + 1) =~= cb.take(b as int).push(cb[b as int]));
            }
            b += 1;
        }
        proof {
            assert(cb.take(cb.len() as int) =~= cb);
        }
        return Ok(ipc_writer_into_bytes(w).unwrap());
    }
    if !check_names(chroms) {
        return Err(ProcessError::NameTooLong);
    }
    let mut w = ipc_writer_new_named("chromosome", "idx1", "idx2", "distance", "type").unwrap();
    let mut c: usize = 0;
    while c < chroms.len()
        invariant
            c <= chroms@.len(),
            2 <= chroms@.len(),
            all == chroms.deep_view(),
            names_fit(all),
            cap == EMBEDDED_BATCH_SIZE as int,
            forall|k: int|
                0 <= k < chroms@.len() ==> num_points((#[trigger] chroms@[k]).1@.len() as int)
                    <= u32::MAX,
            ipc_schema(w) == output_schema_multi(),
            ipc_batches(w) == expected_batches(all.take(c as int), cap),
        decreases chroms@.len() - c,
    {
        let pair: &(String, Vec<u8>) = &chroms[c];
        let name: &String = &pair.0;
        let sq: &Vec<u8> = &pair.1;
        let batches = sequence_batches(sq, EMBEDDED_BATCH_SIZE);
        let ghost cb = chrom_batches(name@, sq@, cap);
        proof {
            lemma_chunked_wf(chromosome_records(sq@), cap);
            assert(all[c as int] == (name@, sq@));
        }
        let mut b: usize = 0;
        while b < batches.len()
            invariant
                b <= batches@.len(),
                cap == EMBEDDED_BATCH_SIZE as int,
                name@.len() <= MAX_NAME_CHARS,
                batch_views(batches@) == chunked(chromosome_records(sq@), cap),
                cb == chrom_batches(name@, sq@, cap),
                forall|k: int| 0 <= k < batches@.len() ==> (#[trigger] batches@[k]).wf(),
                forall|k: int|
                    0 <= k < chunked(chromosome_records(sq@), cap).len() ==> 1 <= (
                    #[trigger] chunked(chromosome_records(sq@), cap)[k]).len() <= cap,
                ipc_schema(w) == output_schema_multi(),
                ipc_batches(w) == expected_batches(all.take(c as int), cap) + cb.take(b as int),
            decreases batches@.len() - b,
        {
            proof {
                assert(batches@[b as int].records() == batch_views(batches@)[b as int]);
                assert(cb[b as int] == (
                    Some(name@),
                    tuple_rows(batches@[b as int].records()),
                ));
                assert(4 * name@.len() * batches@[b as int].records().len() < 0x80000000)
                    by (nonlinear_arith)
                    requires
                        name@.len() <= MAX_NAME_CHARS,
                        MAX_NAME_CHARS == 131071,
                        1 <= batches@[b as int].records().len() <= 4096,
                ;
            }
            ipc_write_batch(&mut w, name.as_str(), &batches[b]).unwrap();
            proof {
                assert(cb.take(b + 1) =~= cb.take(b as int).push(cb[b as int]));
                assert(ipc_batches(w) =~= expected_batches(all.take(c as int), cap) + cb.take(
                    b + 1,
                ));
            }
            b += 1;
        }
        proof {
            assert(cb.take(cb.len() as int) =~= cb);
            assert(all.take(c + 1).drop_last() =~= all.take(c as int));
            assert(all.take(c + 1).last() == all[c as int]);
            assert(expected_batches(all.take(c + 1), cap) == expected_batches(
                all.take(c as int),
                cap,
            ) + cb);
        }
        c += 1;
    }
    proof {
        assert(all.take(chroms@.len() as int) =~= all);
    }
    Ok(ipc_writer_into_bytes(w).unwrap())
}

} // verus!
