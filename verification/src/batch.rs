//! Batch accumulator and the batching part of the execution pipeline: records
//! are buffered into fixed-capacity columnar batches; a batch is handed off
//! whole when it reaches capacity, and the residual batch carries across rows
//! until the sequence ends.

use vstd::prelude::*;

use crate::grid::{
    chromosome_records, compute_row, num_points, records_upto, row_records, PairRecord,
    GRID_SPACING,
};

verus! {

/// Batch capacity of the bulk (file-writing) pipeline.
pub const BULK_BATCH_SIZE: usize = 65536;

/// Batch capacity of the host-embedded (in-memory) pipeline.
pub const EMBEDDED_BATCH_SIZE: usize = 4096;

/// A columnar buffer of records: four equal-length columns, one row per
/// record, capped at a fixed capacity chosen at construction.
pub struct DistanceDataBatch {
    pub(crate) idx1: Vec<u32>,
    pub(crate) idx2: Vec<u32>,
    pub(crate) dist_val: Vec<u16>,
    pub(crate) dist_type: Vec<u8>,
    pub(crate) capacity: usize,
}

impl DistanceDataBatch {
    /// The columns are equally long and the capacity is positive.
    pub closed spec fn wf(&self) -> bool {
        &&& self.idx1@.len() == self.idx2@.len()
        &&& self.idx1@.len() == self.dist_val@.len()
        &&& self.idx1@.len() == self.dist_type@.len()
        &&& self.capacity >= 1
    }

    /// The records held, row by row.
    pub closed spec fn records(&self) -> Seq<PairRecord> {
        Seq::new(
            self.idx1@.len(),
            |k: int|
                PairRecord {
                    idx1: self.idx1@[k],
                    idx2: self.idx2@[k],
                    distance: self.dist_val@[k],
                    resolution: self.dist_type@[k],
                },
        )
    }

    /// The fixed capacity.
    pub closed spec fn cap(&self) -> int {
        self.capacity as int
    }

    /// An empty batch with the given capacity.
    pub fn new(capacity: usize) -> (r: Self)
        requires
            capacity >= 1,
        ensures
            r.wf(),
            r.records() == Seq::<PairRecord>::empty(),
            r.cap() == capacity,
    {
        DistanceDataBatch {
            idx1: Vec::new(),
            idx2: Vec::new(),
            dist_val: Vec::new(),
            dist_type: Vec::new(),
            capacity,
        }
    }

    /// Appends one record.
    pub fn add(&mut self, r: PairRecord)
        requires
            old(self).wf(),
        ensures
            final(self).wf(),
            final(self).records() == old(self).records().push(r),
            final(self).cap() == old(self).cap(),
    {
        self.idx1.push(r.idx1);
        self.idx2.push(r.idx2);
        self.dist_val.push(r.distance);
        self.dist_type.push(r.resolution);
        proof {
            assert(self.records() =~= old(self).records().push(r));
        }
    }

    /// Number of buffered records.
    pub fn len(&self) -> (n: usize)
        requires
            self.wf(),
        ensures
            n == self.records().len(),
    {
        self.idx1.len()
    }

    /// The batch has reached its capacity and is due for hand-off.
    pub fn is_full(&self) -> (b: bool)
        requires
            self.wf(),
        ensures
            b == (self.records().len() >= self.cap()),
    {
        self.idx1.len() >= self.capacity
    }

    /// The batch holds no records.
    pub fn is_empty(&self) -> (b: bool)
        requires
            self.wf(),
        ensures
            b == (self.records().len() == 0),
    {
        self.idx1.len() == 0
    }

    /// Hands the buffered batch out whole and leaves an empty batch of the
    /// same capacity in its place.
    pub fn detach(&mut self) -> (r: Self)
        requires
            old(self).wf(),
        ensures
            r == *old(self),
            final(self).wf(),
            final(self).records() == Seq::<PairRecord>::empty(),
            final(self).cap() == old(self).cap(),
    {
        let cap: usize = self.capacity;
        let mut out = DistanceDataBatch::new(cap);
        core::mem::swap(self, &mut out);
        out
    }

    /// The first-index column.
    pub fn idx1_column(&self) -> (c: &Vec<u32>)
        requires
            self.wf(),
        ensures
            c@.len() == self.records().len(),
            forall|k: int| 0 <= k < c@.len() ==> c@[k] == self.records()[k].idx1,
    {
        &self.idx1
    }

    /// The second-index column.
    pub fn idx2_column(&self) -> (c: &Vec<u32>)
        requires
            self.wf(),
        ensures
            c@.len() == self.records().len(),
            forall|k: int| 0 <= k < c@.len() ==> c@[k] == self.records()[k].idx2,
    {
        &self.idx2
    }

    /// The distance column.
    pub fn distance_column(&self) -> (c: &Vec<u16>)
        requires
            self.wf(),
        ensures
            c@.len() == self.records().len(),
            forall|k: int| 0 <= k < c@.len() ==> c@[k] == self.records()[k].distance,
    {
        &self.dist_val
    }

    /// The resolution-tier column.
    pub fn resolution_column(&self) -> (c: &Vec<u8>)
        requires
            self.wf(),
        ensures
            c@.len() == self.records().len(),
            forall|k: int| 0 <= k < c@.len() ==> c@[k] == self.records()[k].resolution,
    {
        &self.dist_type
    }

    /// Record at row `k`.
    pub fn get(&self, k: usize) -> (r: PairRecord)
        requires
            self.wf(),
            k < self.records().len(),
        ensures
            r == self.records()[k as int],
    {
        PairRecord {
            idx1: self.idx1[k],
            idx2: self.idx2[k],
            distance: self.dist_val[k],
            resolution: self.dist_type[k],
        }
    }
}

/// All records of a run of batches, concatenated in order.
pub open spec fn concat_batches(bs: Seq<Seq<PairRecord>>) -> Seq<PairRecord>
    decreases bs.len(),
{
    if bs.len() == 0 {
        Seq::empty()
    } else {
        concat_batches(bs.drop_last()) + bs.last()
    }
}

/// `records` cut into batches of exactly `cap` rows each, the last batch
/// holding the remainder: between 1 and `cap` rows. No batch is empty.
pub open spec fn chunked(records: Seq<PairRecord>, cap: int) -> Seq<Seq<PairRecord>>
    decreases records.len(),
    when cap >= 1
{
    if records.len() == 0 {
        Seq::empty()
    } else if records.len() <= cap {
        seq![records]
    } else {
        seq![records.take(cap)] + chunked(records.skip(cap), cap)
    }
}

/// The record views of a run of batches.
pub open spec fn batch_views(bs: Seq<DistanceDataBatch>) -> Seq<Seq<PairRecord>> {
    bs.map_values(|b: DistanceDataBatch| b.records())
}

proof fn lemma_concat_first(bs: Seq<Seq<PairRecord>>)
    requires
        bs.len() > 0,
    ensures
        concat_batches(bs) == bs[0] + concat_batches(bs.drop_first()),
    decreases bs.len(),
{
    if bs.len() == 1 {
        assert(concat_batches(bs.drop_last()) == Seq::<PairRecord>::empty());
        assert(concat_batches(bs.drop_first()) == Seq::<PairRecord>::empty());
        assert(concat_batches(bs) =~= bs[0] + concat_batches(bs.drop_first()));
    } else {
        lemma_concat_first(bs.drop_last());
        assert(bs.drop_last().drop_first() =~= bs.drop_first().drop_last());
        assert(bs.drop_first().last() == bs.last());
        assert(concat_batches(bs.drop_first()) == concat_batches(bs.drop_first().drop_last())
            + bs.last());
        assert(concat_batches(bs) =~= bs[0] + concat_batches(bs.drop_first()));
    }
}

/// A run of full batches followed by a partial remainder is exactly the
/// chunking of the concatenated records.
proof fn lemma_chunked_decompose(full: Seq<Seq<PairRecord>>, last: Seq<PairRecord>, cap: int)
    requires
        cap >= 1,
        forall|k: int| 0 <= k < full.len() ==> (#[trigger] full[k]).len() == cap,
        last.len() < cap,
    ensures
        chunked(concat_batches(full) + last, cap) == if last.len() == 0 {
            full
        } else {
            full.push(last)
        },
    decreases full.len(),
{
    if full.len() == 0 {
        assert(concat_batches(full) + last =~= last);
        if last.len() == 0 {
            assert(chunked(last, cap) =~= full);
        } else {
            assert(chunked(concat_batches(full) + last, cap) =~= full.push(last));
        }
    } else {
        let rest = full.drop_first();
        lemma_concat_first(full);
        let rs = concat_batches(full) + last;
        assert(rs =~= full[0] + (concat_batches(rest) + last));
        lemma_chunked_decompose(rest, last, cap);
        if rest.len() == 0 && last.len() == 0 {
            assert(rs =~= full[0]);
            assert(chunked(rs, cap) =~= full);
        } else {
            if rest.len() > 0 {
                assert(concat_batches(rest) == concat_batches(rest.drop_last()) + rest.last());
                assert(rest.last().len() == cap);
                assert(concat_batches(rest).len() >= cap);
            }
            assert(rs.len() > cap);
            assert(rs.take(cap) =~= full[0]);
            assert(rs.skip(cap) =~= concat_batches(rest) + last);
            if last.len() == 0 {
                assert(chunked(rs, cap) =~= full);
            } else {
                assert(chunked(rs, cap) =~= full.push(last));
            }
        }
    }
}

/// Processes row `i` into the accumulator: appends every record of the row in
/// order; whenever the accumulator reaches capacity it is handed off whole to
/// `emitted`; the residual stays in `batch` and carries into the next row.
pub fn fill_row(
    seq: &Vec<u8>,
    i: usize,
    batch: &mut DistanceDataBatch,
    emitted: &mut Vec<DistanceDataBatch>,
)
    requires
        (i as int) < num_points(seq@.len() as int),
        num_points(seq@.len() as int) <= u32::MAX,
        old(batch).wf(),
        old(batch).records().len() < old(batch).cap(),
    ensures
        final(batch).wf(),
        final(batch).cap() == old(batch).cap(),
        final(batch).records().len() < old(batch).cap(),
        final(emitted)@.len() >= old(emitted)@.len(),
        final(emitted)@.take(old(emitted)@.len() as int) == old(emitted)@,
        forall|k: int|
            old(emitted)@.len() <= k < final(emitted)@.len() ==> {
                &&& (#[trigger] final(emitted)@[k]).wf()
                &&& final(emitted)@[k].records().len() == old(batch).cap()
                &&& final(emitted)@[k].cap() == old(batch).cap()
            },
        concat_batches(batch_views(final(emitted)@)) + final(batch).records() == concat_batches(
            batch_views(old(emitted)@),
        ) + old(batch).records() + row_records(seq@, i as int),
{
    let row = compute_row(seq, i);
    let ghost start = emitted@.len();
    let mut t: usize = 0;
    while t < row.len()
        invariant
            t <= row@.len(),
            row@ == row_records(seq@, i as int),
            batch.wf(),
            batch.cap() == old(batch).cap(),
            batch.records().len() < batch.cap(),
            emitted@.len() >= start,
            start == old(emitted)@.len(),
            emitted@.take(start as int) == old(emitted)@,
            forall|k: int|
                start <= k < emitted@.len() ==> (#[trigger] emitted@[k]).wf()
                    && emitted@[k].records().len() == old(batch).cap() && emitted@[k].cap() == old(
                    batch,
                ).cap(),
            concat_batches(batch_views(emitted@)) + batch.records() == concat_batches(
                batch_views(old(emitted)@),
            ) + old(batch).records() + row@.take(t as int),
        decreases row@.len() - t,
    {
        let ghost base = concat_batches(batch_views(old(emitted)@)) + old(batch).records();
        let ghost rec0 = batch.records();
        let ghost e = row@[t as int];
        proof {
            assert(base + row@.take(t + 1) =~= (base + row@.take(t as int)).push(e));
        }
        batch.add(row[t]);
        if batch.is_full() {
            let ghost before = emitted@;
            let full_b = batch.detach();
            emitted.push(full_b);
            proof {
                assert(batch_views(emitted@) =~= batch_views(before).push(full_b.records()));
                assert(batch_views(emitted@).drop_last() =~= batch_views(before));
                assert(concat_batches(batch_views(emitted@)) == concat_batches(
                    batch_views(before),
                ) + full_b.records());
                assert(emitted@.take(start as int) =~= before.take(start as int));
                assert(concat_batches(batch_views(emitted@)) + batch.records() =~= concat_batches(
                    batch_views(before),
                ) + rec0.push(e));
                assert(concat_batches(batch_views(before)) + rec0.push(e) =~= (concat_batches(
                    batch_views(before),
                ) + rec0).push(e));
            }
        } else {
            proof {
                assert(concat_batches(batch_views(emitted@)) + batch.records() =~= (concat_batches(
                    batch_views(emitted@),
                ) + rec0).push(e));
            }
        }
        proof {
            assert(concat_batches(batch_views(emitted@)) + batch.records() == base + row@.take(
                t + 1,
            ));
        }
        t += 1;
    }
    proof {
        assert(row@.take(row@.len() as int) =~= row@);
    }
}

/// Runs the whole single-threaded pipeline for one sequence: every record in
/// row-major order, batched at `capacity`, with the residual batch flushed at
/// sequence end. The result is exactly the chunking of the sequence's records.
pub fn sequence_batches(seq: &Vec<u8>, capacity: usize) -> (out: Vec<DistanceDataBatch>)
    requires
        capacity >= 1,
        num_points(seq@.len() as int) <= u32::MAX,
    ensures
        batch_views(out@) == chunked(chromosome_records(seq@), capacity as int),
        forall|k: int| 0 <= k < out@.len() ==> (#[trigger] out@[k]).wf(),
{
    let n: usize = seq.len() / GRID_SPACING;
    let mut out: Vec<DistanceDataBatch> = Vec::new();
    let mut batch = DistanceDataBatch::new(capacity);
    if n >= 2 {
        let mut i: usize = 0;
        while i < n
            invariant
                i <= n,
                n == num_points(seq@.len() as int),
                n <= u32::MAX,
                capacity >= 1,
                batch.wf(),
                batch.cap() == capacity,
                batch.records().len() < capacity,
                forall|k: int|
                    0 <= k < out@.len() ==> (#[trigger] out@[k]).wf() && out@[k].records().len()
                        == capacity,
                concat_batches(batch_views(out@)) + batch.records() == records_upto(
                    seq@,
                    i as int,
                ),
            decreases n - i,
        {
            let ghost prev_out = out@;
            fill_row(seq, i, &mut batch, &mut out);
            proof {
                assert forall|k: int| 0 <= k < out@.len() implies (#[trigger] out@[k]).wf()
                    && out@[k].records().len() == capacity by {
                    if k < prev_out.len() {
                        assert(out@[k] == out@.take(prev_out.len() as int)[k]);
                    }
                }
                assert(concat_batches(batch_views(out@)) + batch.records() =~= records_upto(
                    seq@,
                    i + 1,
                ));
            }
            i += 1;
        }
    } else {
        proof {
            assert(records_upto(seq@, 0) =~= Seq::<PairRecord>::empty());
            assert(records_upto(seq@, 1) =~= Seq::<PairRecord>::empty());
        }
    }
    proof {
        assert(concat_batches(batch_views(out@)) + batch.records() == chromosome_records(seq@));
        lemma_chunked_decompose(batch_views(out@), batch.records(), capacity as int);
    }
    if !batch.is_empty() {
        let last = batch.detach();
        let ghost before = out@;
        out.push(last);
        proof {
            assert(batch_views(out@) =~= batch_views(before).push(last.records()));
        }
    }
    out
}

} // verus!
