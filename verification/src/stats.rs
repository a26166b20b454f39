//! Sinks and their statistics.
//!
//! Each output partition is written through one sink. A sink carries the
//! file path it writes to (or the empty string for channel-backed sinks) and
//! running counters: `num_rows` is the sum of the rows of all successfully
//! written batches, `num_batches` the count of successful writes, and
//! `num_bytes` the sum of the batches' in-memory column footprints. Once
//! `finish` is called, no further write may be issued.
use vstd::prelude::*;

use crate::arith::{clamp_u64, spec_sat_add, sat_add};

verus! {

/// The record describing one produced output partition.
#[derive(Debug, PartialEq, Eq)]
pub struct ShuffleWritePartition {
    pub partition_id: u64,
    pub path: String,
    pub num_batches: u64,
    pub num_rows: u64,
    pub num_bytes: u64,
}

impl Clone for ShuffleWritePartition {
    fn clone(&self) -> (r: Self)
        ensures
            r == *self,
    {
        ShuffleWritePartition {
            partition_id: self.partition_id,
            path: self.path.clone(),
            num_batches: self.num_batches,
            num_rows: self.num_rows,
            num_bytes: self.num_bytes,
        }
    }
}

/// Optional statistics of one partition, as carried by the pass-through
/// write path.
#[derive(Debug, PartialEq, Eq)]
pub struct PartitionStats {
    pub num_rows: Option<u64>,
    pub num_batches: Option<u64>,
    pub num_bytes: Option<u64>,
}

impl PartitionStats {
    pub fn new(num_rows: Option<u64>, num_batches: Option<u64>, num_bytes: Option<u64>) -> (r:
        PartitionStats)
        ensures
            r.num_rows == num_rows,
            r.num_batches == num_batches,
            r.num_bytes == num_bytes,
    {
        PartitionStats { num_rows, num_batches, num_bytes }
    }
}

/// The sum of the row counts of a write history.
pub open spec fn sum_rows(written: Seq<(u64, u64)>) -> nat
    decreases written.len(),
{
    if written.len() == 0 {
        0
    } else {
        (sum_rows(written.drop_last()) + written.last().0) as nat
    }
}

/// The sum of the byte counts of a write history.
pub open spec fn sum_bytes(written: Seq<(u64, u64)>) -> nat
    decreases written.len(),
{
    if written.len() == 0 {
        0
    } else {
        (sum_bytes(written.drop_last()) + written.last().1) as nat
    }
}

/// The statistics side of one output-partition sink. The I/O resource the
/// sink writes through (file writer or channel sender) lives with the caller
/// that performs the writes; the sink tracks what was written.
pub struct ShuffleSink {
    pub path: String,
    pub num_batches: u64,
    pub num_rows: u64,
    pub num_bytes: u64,
    pub finished: bool,
    /// The (rows, bytes) of each successfully written batch, in write order.
    pub written: Ghost<Seq<(u64, u64)>>,
}

impl ShuffleSink {
    /// The counters agree with the write history: each is the (clamped) sum
    /// or count over the written batches.
    pub open spec fn wf(self) -> bool {
        &&& self.num_rows == clamp_u64(sum_rows(self.written@))
        &&& self.num_bytes == clamp_u64(sum_bytes(self.written@))
        &&& self.num_batches == clamp_u64(self.written@.len())
    }

    /// Opens a sink that writes at `path` (the empty string for a
    /// channel-backed sink), with zeroed counters.
    pub fn new(path: String) -> (r: ShuffleSink)
        ensures
            r.wf(),
            r.path == path,
            r.written@ =~= Seq::<(u64, u64)>::empty(),
            !r.finished,
            r.num_batches == 0 && r.num_rows == 0 && r.num_bytes == 0,
    {
        ShuffleSink {
            path,
            num_batches: 0,
            num_rows: 0,
            num_bytes: 0,
            finished: false,
            written: Ghost(Seq::empty()),
        }
    }

    /// Records one successfully written batch of `rows` rows and `bytes`
    /// bytes. May not be called once the sink is finished.
    pub fn write(&mut self, rows: u64, bytes: u64)
        requires
            old(self).wf(),
            !old(self).finished,
        ensures
            final(self).wf(),
            final(self).written@ == old(self).written@.push((rows, bytes)),
            final(self).num_rows == spec_sat_add(old(self).num_rows, rows),
            final(self).num_bytes == spec_sat_add(old(self).num_bytes, bytes),
            final(self).num_batches == spec_sat_add(old(self).num_batches, 1),
            final(self).path == old(self).path,
            !final(self).finished,
    {
        proof {
            let w = self.written@;
            let pushed = w.push((rows, bytes));
            assert(pushed.drop_last() =~= w);
            assert(sum_rows(pushed) == sum_rows(w) + rows);
            assert(sum_bytes(pushed) == sum_bytes(w) + bytes);
        }
        self.num_rows = sat_add(self.num_rows, rows);
        self.num_bytes = sat_add(self.num_bytes, bytes);
        self.num_batches = sat_add(self.num_batches, 1);
        proof {
            self.written@ = self.written@.push((rows, bytes));
        }
    }

    /// Closes the sink; afterwards no further write may be issued.
    pub fn finish(&mut self)
        requires
            old(self).wf(),
        ensures
            final(self).wf(),
            final(self).finished,
            final(self).path == old(self).path,
            final(self).written@ == old(self).written@,
            final(self).num_rows == old(self).num_rows,
            final(self).num_bytes == old(self).num_bytes,
            final(self).num_batches == old(self).num_batches,
    {
        self.finished = true;
    }

    /// The path the sink writes to, or the empty string.
    pub fn path(&self) -> (r: &String)
        ensures
            *r == self.path,
    {
        &self.path
    }

    pub fn num_batches(&self) -> (r: u64)
        ensures
            r == self.num_batches,
    {
        self.num_batches
    }

    pub fn num_rows(&self) -> (r: u64)
        ensures
            r == self.num_rows,
    {
        self.num_rows
    }

    pub fn num_bytes(&self) -> (r: u64)
        ensures
            r == self.num_bytes,
    {
        self.num_bytes
    }
}

/// As long as the true sums fit in 64 bits, a well-formed sink's counters
/// are exactly the sum of the written rows, the sum of the written bytes,
/// and the count of the written batches.
pub proof fn lemma_sink_stats_exact(s: ShuffleSink)
    requires
        s.wf(),
        sum_rows(s.written@) <= u64::MAX,
        sum_bytes(s.written@) <= u64::MAX,
        s.written@.len() <= u64::MAX,
    ensures
        s.num_rows == sum_rows(s.written@),
        s.num_bytes == sum_bytes(s.written@),
        s.num_batches == s.written@.len(),
{
}

} // verus!
