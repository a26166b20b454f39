//! The shuffle-writer execution-plan node.
//!
//! A shuffle writer owns a job id, a stage id, an output location and an
//! optional hash partitioning. Executed once per input partition, it
//! consumes that partition's record batches, routes them (pass-through, or
//! hash-repartitioned across `n` outputs), tracks per-sink statistics, and
//! reports one record per produced output partition. The I/O the sinks
//! write through (files, channels, remote streams) is performed by the
//! caller that drives the stream; this node makes every decision and keeps
//! every counter.
use vstd::prelude::*;
use vstd::string::StringExecFns;

use crate::arith::{clamp_u64, spec_sat_add, sat_add};
use crate::batch::{Batch, CellValue};
use crate::error::EngineError;
use crate::expr::ColumnExpr;
use crate::fmtnum::{append_u64, spec_u64_digits};
use crate::repartition::{
    spec_split_rows, spec_stream_parts, spec_routed_upto, spec_stream_routed, split_batch,
};
use crate::stats::{ShuffleSink, ShuffleWritePartition};

verus! {

/// The total row count of a list of batches.
pub open spec fn spec_total_rows(batches: Seq<Batch>) -> nat
    decreases batches.len(),
{
    if batches.len() == 0 {
        0
    } else {
        (spec_total_rows(batches.drop_last()) + batches.last().spec_num_rows()) as nat
    }
}

/// The total footprint of a list of batches, each batch's footprint first
/// stopped at the largest 64-bit value.
pub open spec fn spec_total_bytes(batches: Seq<Batch>) -> nat
    decreases batches.len(),
{
    if batches.len() == 0 {
        0
    } else {
        (spec_total_bytes(batches.drop_last()) + clamp_u64(batches.last().spec_footprint())) as nat
    }
}

/// All batches of a stream are well-formed.
pub open spec fn spec_all_wf(batches: Seq<Batch>) -> bool {
    forall|b: int| 0 <= b < batches.len() ==> (#[trigger] batches[b]).wf()
}

/// Every key expression names a column of every batch of the stream.
pub open spec fn spec_exprs_fit(batches: Seq<Batch>, exprs: Seq<ColumnExpr>) -> bool {
    forall|b: int, e: int|
        0 <= b < batches.len() && 0 <= e < exprs.len() ==> (#[trigger] exprs[e]).index < (
        #[trigger] batches[b]).spec_num_columns()
}

/// The total row count of a partition's row groups.
pub open spec fn spec_parts_rows_total(parts: Seq<Seq<Seq<CellValue>>>) -> nat
    decreases parts.len(),
{
    if parts.len() == 0 {
        0
    } else {
        (spec_parts_rows_total(parts.drop_last()) + parts.last().len()) as nat
    }
}

/// The total footprint of a partition's row groups, each group's footprint
/// first stopped at the largest 64-bit value.
pub open spec fn spec_parts_bytes_total(parts: Seq<Seq<Seq<CellValue>>>) -> nat
    decreases parts.len(),
{
    if parts.len() == 0 {
        0
    } else {
        (spec_parts_bytes_total(parts.drop_last()) + clamp_u64(
            crate::batch::spec_columns_footprint(parts.last()),
        )) as nat
    }
}

/// The total row count of a list of batches is the total row count of their
/// row sequences.
proof fn lemma_total_rows_by_rows(subs: Seq<Batch>)
    ensures
        spec_total_rows(subs) == spec_parts_rows_total(subs.map_values(|b: Batch| b.rows())),
    decreases subs.len(),
{
    let mapped = subs.map_values(|b: Batch| b.rows());
    if subs.len() > 0 {
        lemma_total_rows_by_rows(subs.drop_last());
        assert(mapped.drop_last() =~= subs.drop_last().map_values(|b: Batch| b.rows()));
        assert(mapped.last() == subs.last().rows());
    }
}

/// The total clamped footprint of a list of well-formed batches is the
/// total clamped footprint of their row sequences.
proof fn lemma_total_bytes_by_rows(subs: Seq<Batch>)
    requires
        forall|k: int| 0 <= k < subs.len() ==> (#[trigger] subs[k]).wf(),
    ensures
        spec_total_bytes(subs) == spec_parts_bytes_total(subs.map_values(|b: Batch| b.rows())),
    decreases subs.len(),
{
    let mapped = subs.map_values(|b: Batch| b.rows());
    if subs.len() > 0 {
        lemma_total_bytes_by_rows(subs.drop_last());
        assert(mapped.drop_last() =~= subs.drop_last().map_values(|b: Batch| b.rows()));
        assert(mapped.last() == subs.last().rows());
        subs.last().lemma_footprint_by_rows();
    }
}

/// No row is lost or duplicated by routing: the rows a stream routes across
/// the `n` output partitions are exactly as many as the stream's rows, so a
/// hash write's output-row counter equals its input-row counter.
pub proof fn lemma_stream_routed_equals_rows(
    batches: Seq<Batch>,
    exprs: Seq<ColumnExpr>,
    n: int,
)
    requires
        n >= 1,
    ensures
        spec_stream_routed(batches, exprs, n) == spec_total_rows(batches),
    decreases batches.len(),
{
    if batches.len() > 0 {
        lemma_stream_routed_equals_rows(batches.drop_last(), exprs, n);
        crate::repartition::lemma_routed_equals_rows(batches.last(), exprs, n);
    }
}

/// The address of one executor a partition can be pushed to.
#[derive(Debug, PartialEq, Eq)]
pub struct ExecutorMeta {
    pub id: String,
    pub host: String,
    pub port: u16,
}

impl Clone for ExecutorMeta {
    fn clone(&self) -> (r: Self)
        ensures
            r == *self,
    {
        ExecutorMeta { id: self.id.clone(), host: self.host.clone(), port: self.port }
    }
}

/// Where the writer's output goes: a local working directory (pull-based
/// shuffle) or a list of executors (push-based shuffle).
#[derive(Debug)]
pub enum OutputLocation {
    LocalDir(String),
    Executors(Vec<ExecutorMeta>),
}

/// The output partitioning of a stage. The shuffle writer supports the
/// hash scheme; the other schemes are rejected at execution time.
#[derive(Debug)]
pub enum Partitioning {
    RoundRobinBatch(usize),
    Hash(Vec<ColumnExpr>, usize),
    UnknownPartitioning(usize),
}

/// The per-invocation metrics of a shuffle write: rows consumed from the
/// child stream and rows written to the sinks.
#[derive(Debug, PartialEq, Eq)]
pub struct ShuffleWriteMetrics {
    pub input_rows: u64,
    pub output_rows: u64,
}

impl ShuffleWriteMetrics {
    /// Fresh zeroed counters for one invocation.
    pub fn new() -> (r: ShuffleWriteMetrics)
        ensures
            r.input_rows == 0,
            r.output_rows == 0,
    {
        ShuffleWriteMetrics { input_rows: 0, output_rows: 0 }
    }

    /// Counts rows consumed from the child stream.
    pub fn add_input_rows(&mut self, n: u64)
        ensures
            final(self).input_rows == spec_sat_add(old(self).input_rows, n),
            final(self).output_rows == old(self).output_rows,
    {
        self.input_rows = sat_add(self.input_rows, n);
    }

    /// Counts rows written to a sink.
    pub fn add_output_rows(&mut self, n: u64)
        ensures
            final(self).output_rows == spec_sat_add(old(self).output_rows, n),
            final(self).input_rows == old(self).input_rows,
    {
        self.output_rows = sat_add(self.output_rows, n);
    }
}

/// The directory of one output partition:
/// `<work_dir>/<job_id>/<stage_id>/<partition>`.
pub open spec fn spec_partition_dir(
    work_dir: Seq<char>,
    job_id: Seq<char>,
    stage_id: int,
    partition: int,
) -> Seq<char> {
    work_dir + "/"@ + job_id + "/"@ + spec_u64_digits(stage_id) + "/"@ + spec_u64_digits(partition)
}

/// The data file of the pass-through write path:
/// `<work_dir>/<job_id>/<stage_id>/<input_partition>/data.arrow`.
pub open spec fn spec_passthrough_file_path(
    work_dir: Seq<char>,
    job_id: Seq<char>,
    stage_id: int,
    input_partition: int,
) -> Seq<char> {
    spec_partition_dir(work_dir, job_id, stage_id, input_partition) + "/"@ + "data.arrow"@
}

/// The data file one hash output partition is written to:
/// `<work_dir>/<job_id>/<stage_id>/<output_partition>/data-<input_partition>.arrow`.
pub open spec fn spec_hash_file_path(
    work_dir: Seq<char>,
    job_id: Seq<char>,
    stage_id: int,
    output_partition: int,
    input_partition: int,
) -> Seq<char> {
    spec_partition_dir(work_dir, job_id, stage_id, output_partition) + "/"@ + "data-"@
        + spec_u64_digits(input_partition) + ".arrow"@
}

/// Builds the directory path of one output partition.
pub fn partition_dir(work_dir: &str, job_id: &str, stage_id: usize, partition: usize) -> (r:
    String)
    ensures
        r@ == spec_partition_dir(work_dir@, job_id@, stage_id as int, partition as int),
{
    let mut s = String::from_str(work_dir);
    s.append("/");
    s.append(job_id);
    s.append("/");
    append_u64(&mut s, stage_id as u64);
    s.append("/");
    append_u64(&mut s, partition as u64);
    s
}

/// Builds the data-file path of the pass-through write path.
pub fn passthrough_file_path(work_dir: &str, job_id: &str, stage_id: usize, input_partition: usize)
    -> (r: String)
    ensures
        r@ == spec_passthrough_file_path(work_dir@, job_id@, stage_id as int, input_partition as int),
{
    let mut s = partition_dir(work_dir, job_id, stage_id, input_partition);
    s.append("/");
    s.append("data.arrow");
    s
}

/// Builds the data-file path of one hash output partition.
pub fn hash_file_path(
    work_dir: &str,
    job_id: &str,
    stage_id: usize,
    output_partition: usize,
    input_partition: usize,
) -> (r: String)
    ensures
        r@ == spec_hash_file_path(
            work_dir@,
            job_id@,
            stage_id as int,
            output_partition as int,
            input_partition as int,
        ),
{
    let mut s = partition_dir(work_dir, job_id, stage_id, output_partition);
    s.append("/");
    s.append("data-");
    append_u64(&mut s, input_partition as u64);
    s.append(".arrow");
    s
}

/// A section of a query plan with consistent partitioning, executed as one
/// unit per input partition. The output of each input partition is
/// re-partitioned and handed to per-output-partition sinks.
#[derive(Debug)]
pub struct ShuffleWriterExec {
    /// Unique id of the job (query) this stage is part of.
    pub job_id: String,
    /// Unique stage id within the job.
    pub stage_id: usize,
    /// Where the output streams go.
    pub output_loc: OutputLocation,
    /// Optional shuffle output partitioning.
    pub shuffle_output_partitioning: Option<Partitioning>,
}

impl ShuffleWriterExec {
    /// Creates a new shuffle writer.
    pub fn try_new(
        job_id: String,
        stage_id: usize,
        output_loc: OutputLocation,
        shuffle_output_partitioning: Option<Partitioning>,
    ) -> (r: Result<ShuffleWriterExec, EngineError>)
        ensures
            r matches Ok(w) && w.job_id == job_id && w.stage_id == stage_id && w.output_loc
                == output_loc && w.shuffle_output_partitioning == shuffle_output_partitioning,
    {
        Ok(ShuffleWriterExec { job_id, stage_id, output_loc, shuffle_output_partitioning })
    }

    /// Creates a new shuffle writer for a pull-based shuffle: the output is
    /// written under a local working directory.
    pub fn try_new_pull_shuffle(
        job_id: String,
        stage_id: usize,
        work_dir: String,
        shuffle_output_partitioning: Option<Partitioning>,
    ) -> (r: Result<ShuffleWriterExec, EngineError>)
        ensures
            r matches Ok(w) && w.job_id == job_id && w.stage_id == stage_id && w.output_loc
                == OutputLocation::LocalDir(work_dir) && w.shuffle_output_partitioning
                == shuffle_output_partitioning,
    {
        Ok(
            ShuffleWriterExec {
                job_id,
                stage_id,
                output_loc: OutputLocation::LocalDir(work_dir),
                shuffle_output_partitioning,
            },
        )
    }

    /// Creates a new shuffle writer for a push-based shuffle: the output is
    /// streamed to the given executors.
    pub fn try_new_push_shuffle(
        job_id: String,
        stage_id: usize,
        execs: Vec<ExecutorMeta>,
        shuffle_output_partitioning: Option<Partitioning>,
    ) -> (r: Result<ShuffleWriterExec, EngineError>)
        ensures
            r matches Ok(w) && w.job_id == job_id && w.stage_id == stage_id && w.output_loc
                == OutputLocation::Executors(execs) && w.shuffle_output_partitioning
                == shuffle_output_partitioning,
    {
        Ok(
            ShuffleWriterExec {
                job_id,
                stage_id,
                output_loc: OutputLocation::Executors(execs),
                shuffle_output_partitioning,
            },
        )
    }

    /// The job id of this query stage.
    pub fn job_id(&self) -> (r: &str)
        ensures
            r@ == self.job_id@,
    {
        self.job_id.as_str()
    }

    /// The stage id of this query stage.
    pub fn stage_id(&self) -> (r: usize)
        ensures
            r == self.stage_id,
    {
        self.stage_id
    }

    /// The true shuffle output partitioning.
    pub fn shuffle_output_partitioning(&self) -> (r: Option<&Partitioning>)
        ensures
            r is Some <==> self.shuffle_output_partitioning is Some,
            r matches Some(p) ==> *p == self.shuffle_output_partitioning->Some_0,
    {
        self.shuffle_output_partitioning.as_ref()
    }

    /// Whether this is a push-based shuffle.
    pub fn is_push_shuffle(&self) -> (r: bool)
        ensures
            r == (self.output_loc is Executors),
    {
        match self.output_loc {
            OutputLocation::LocalDir(_) => false,
            OutputLocation::Executors(_) => true,
        }
    }

    /// Whether this is a push-based shuffle whose every destination is the
    /// executor with the given id.
    pub fn is_local_shuffle(&self, self_id: &str) -> (r: bool)
        ensures
            r == match self.output_loc {
                OutputLocation::LocalDir(_) => false,
                OutputLocation::Executors(execs) => forall|k: int|
                    0 <= k < execs@.len() ==> (#[trigger] execs@[k]).id@ == self_id@,
            },
    {
        match &self.output_loc {
            OutputLocation::LocalDir(_) => false,
            OutputLocation::Executors(execs) => {
                let sid = String::from_str(self_id);
                let mut k: usize = 0;
                while k < execs.len()
                    invariant
                        k <= execs@.len(),
                        sid@ == self_id@,
                        self.output_loc matches OutputLocation::Executors(ex) && ex == *execs,
                        forall|t: int| 0 <= t < k ==> (#[trigger] execs@[t]).id@ == self_id@,
                    decreases execs@.len() - k,
                {
                    if !(execs[k].id == sid) {
                        proof {
                            assert(!(forall|t: int|
                                0 <= t < execs@.len() ==> (#[trigger] execs@[t]).id@
                                    == self_id@)) by {
                                assert((execs@[k as int]).id@ != self_id@);
                            }
                        }
                        return false;
                    }
                    k += 1;
                }
                true
            },
        }
    }

    /// The human-readable plan line of this node.
    pub fn display_string(&self) -> (r: String)
        ensures
            r@ == "ShuffleWriterExec: "@ + spec_partitioning_desc(
                self.shuffle_output_partitioning,
            ),
    {
        let prefix = "ShuffleWriterExec: ";
        let mut s = String::from_str(prefix);
        match &self.shuffle_output_partitioning {
            None => {
                s.append("None");
                proof {
                    assert(s@ =~= prefix@ + spec_partitioning_desc(
                        self.shuffle_output_partitioning,
                    ));
                }
            },
            Some(Partitioning::RoundRobinBatch(n)) => {
                s.append("RoundRobinBatch(");
                append_u64(&mut s, *n as u64);
                s.append(")");
                proof {
                    assert(s@ =~= prefix@ + spec_partitioning_desc(
                        self.shuffle_output_partitioning,
                    ));
                }
            },
            Some(Partitioning::Hash(exprs, n)) => {
                s.append("Hash(");
                append_u64(&mut s, exprs.len() as u64);
                s.append(" keys, ");
                append_u64(&mut s, *n as u64);
                s.append(")");
                proof {
                    assert(s@ =~= prefix@ + spec_partitioning_desc(
                        self.shuffle_output_partitioning,
                    ));
                }
            },
            Some(Partitioning::UnknownPartitioning(n)) => {
                s.append("UnknownPartitioning(");
                append_u64(&mut s, *n as u64);
                s.append(")");
                proof {
                    assert(s@ =~= prefix@ + spec_partitioning_desc(
                        self.shuffle_output_partitioning,
                    ));
                }
            },
        }
        s
    }
}

/// The description of a partitioning in the plan line.
pub open spec fn spec_partitioning_desc(p: Option<Partitioning>) -> Seq<char> {
    match p {
        Option::None => "None"@,
        Option::Some(Partitioning::RoundRobinBatch(n)) => "RoundRobinBatch("@ + spec_u64_digits(
            n as int,
        ) + ")"@,
        Option::Some(Partitioning::Hash(exprs, n)) => "Hash("@ + spec_u64_digits(exprs@.len() as int)
            + " keys, "@ + spec_u64_digits(n as int) + ")"@,
        Option::Some(Partitioning::UnknownPartitioning(n)) => "UnknownPartitioning("@
            + spec_u64_digits(n as int) + ")"@,
    }
}

/// Builds the metadata result batch from the produced partition records:
/// one row per record, under the columns of `result_schema` with the
/// statistics struct flattened — the partition id (as its low 32 bits), the
/// path, and the three statistics counters.
pub fn metadata_batch(records: &Vec<crate::stats::ShuffleWritePartition>) -> (r: Batch)
    ensures
        r.wf(),
        r.spec_num_columns() == 5,
        r.spec_num_rows() == records@.len(),
        forall|i: int|
            0 <= i < records@.len() ==> #[trigger] r.col(0)[i] == CellValue::UInt64(
                (records@[i].partition_id % 0x1_0000_0000) as u64,
            ),
        forall|i: int|
            0 <= i < records@.len() ==> #[trigger] r.col(1)[i] == CellValue::Utf8(
                records@[i].path,
            ),
        forall|i: int|
            0 <= i < records@.len() ==> #[trigger] r.col(2)[i] == CellValue::UInt64(
                records@[i].num_rows,
            ),
        forall|i: int|
            0 <= i < records@.len() ==> #[trigger] r.col(3)[i] == CellValue::UInt64(
                records@[i].num_batches,
            ),
        forall|i: int|
            0 <= i < records@.len() ==> #[trigger] r.col(4)[i] == CellValue::UInt64(
                records@[i].num_bytes,
            ),
{
    let mut partition_col: Vec<CellValue> = Vec::new();
    let mut path_col: Vec<CellValue> = Vec::new();
    let mut rows_col: Vec<CellValue> = Vec::new();
    let mut batches_col: Vec<CellValue> = Vec::new();
    let mut bytes_col: Vec<CellValue> = Vec::new();
    let mut i: usize = 0;
    while i < records.len()
        invariant
            i <= records@.len(),
            partition_col@.len() == i,
            path_col@.len() == i,
            rows_col@.len() == i,
            batches_col@.len() == i,
            bytes_col@.len() == i,
            forall|t: int|
                0 <= t < i ==> #[trigger] partition_col@[t] == CellValue::UInt64(
                    (records@[t].partition_id % 0x1_0000_0000) as u64,
                ),
            forall|t: int|
                0 <= t < i ==> #[trigger] path_col@[t] == CellValue::Utf8(records@[t].path),
            forall|t: int|
                0 <= t < i ==> #[trigger] rows_col@[t] == CellValue::UInt64(records@[t].num_rows),
            forall|t: int|
                0 <= t < i ==> #[trigger] batches_col@[t] == CellValue::UInt64(
                    records@[t].num_batches,
                ),
            forall|t: int|
                0 <= t < i ==> #[trigger] bytes_col@[t] == CellValue::UInt64(
                    records@[t].num_bytes,
                ),
        decreases records@.len() - i,
    {
        let rec = &records[i];
        partition_col.push(CellValue::UInt64(rec.partition_id % 0x1_0000_0000));
        path_col.push(CellValue::Utf8(rec.path.clone()));
        rows_col.push(CellValue::UInt64(rec.num_rows));
        batches_col.push(CellValue::UInt64(rec.num_batches));
        bytes_col.push(CellValue::UInt64(rec.num_bytes));
        i += 1;
    }
    let num_rows = records.len();
    let mut columns: Vec<Vec<CellValue>> = Vec::new();
    columns.push(partition_col);
    columns.push(path_col);
    columns.push(rows_col);
    columns.push(batches_col);
    columns.push(bytes_col);
    let b = Batch { num_rows, columns };
    proof {
        assert(b.wf());
    }
    b
}

/// What one shuffle-write invocation produced: the records describing the
/// non-empty output partitions, the gathered batches of each such partition
/// (for the hash path; the pass-through path forwards the input unchanged),
/// and the invocation's metrics.
#[derive(Debug)]
pub struct ShuffleWriteOutput {
    pub records: Vec<ShuffleWritePartition>,
    pub partition_batches: Vec<(usize, Vec<Batch>)>,
    pub metrics: ShuffleWriteMetrics,
}

/// The file path of the pass-through sink: under the working directory for
/// a pull-based shuffle, the empty string for a push-based one.
pub open spec fn spec_passthrough_sink_path(w: ShuffleWriterExec, input_partition: int) -> Seq<
    char,
> {
    match w.output_loc {
        OutputLocation::LocalDir(wd) => spec_passthrough_file_path(
            wd@,
            w.job_id@,
            w.stage_id as int,
            input_partition,
        ),
        OutputLocation::Executors(_) => ""@,
    }
}

/// The file path of the sink of hash output partition `p`: under the
/// working directory for a pull-based shuffle, the empty string for a
/// push-based one.
pub open spec fn spec_hash_sink_path(w: ShuffleWriterExec, p: int, input_partition: int) -> Seq<
    char,
> {
    match w.output_loc {
        OutputLocation::LocalDir(wd) => spec_hash_file_path(
            wd@,
            w.job_id@,
            w.stage_id as int,
            p,
            input_partition,
        ),
        OutputLocation::Executors(_) => ""@,
    }
}

/// What the pass-through write path produces: exactly one record, carrying
/// the input partition's id, the sink's path, and the exact stream totals;
/// the input batches are forwarded as they are.
pub open spec fn spec_passthrough_post(
    w: ShuffleWriterExec,
    input_partition: int,
    batches: Seq<Batch>,
    out: ShuffleWriteOutput,
) -> bool {
    &&& out.records@.len() == 1
    &&& out.records@[0].partition_id == input_partition as u64
    &&& out.records@[0].path@ == spec_passthrough_sink_path(w, input_partition)
    &&& out.records@[0].num_rows == clamp_u64(spec_total_rows(batches))
    &&& out.records@[0].num_batches == clamp_u64(batches.len())
    &&& out.records@[0].num_bytes == clamp_u64(spec_total_bytes(batches))
    &&& out.partition_batches@.len() == 0
    &&& out.metrics.input_rows == clamp_u64(spec_total_rows(batches))
    &&& out.metrics.output_rows == clamp_u64(spec_total_rows(batches))
}

/// How many of the output partitions below `k` receive at least one row
/// from the stream.
pub open spec fn spec_active_parts_upto(
    batches: Seq<Batch>,
    exprs: Seq<ColumnExpr>,
    n: int,
    k: int,
) -> nat
    decreases k,
{
    if k <= 0 {
        0
    } else {
        (spec_active_parts_upto(batches, exprs, n, k - 1) + (if spec_stream_parts(
            batches,
            exprs,
            n,
            k - 1,
        ).len() > 0 {
            1nat
        } else {
            0nat
        })) as nat
    }
}

/// What the hash write path produces: one entry per output partition that
/// received at least one row, in increasing partition order, pairing the
/// partition with exactly the batches the stream routed to it; and one
/// record per entry carrying that partition's path and exact totals.
pub open spec fn spec_hash_post(
    w: ShuffleWriterExec,
    input_partition: int,
    batches: Seq<Batch>,
    exprs: Seq<ColumnExpr>,
    n: int,
    out: ShuffleWriteOutput,
) -> bool {
    &&& out.records@.len() == out.partition_batches@.len()
    &&& out.partition_batches@.len() == spec_active_parts_upto(batches, exprs, n, n)
    &&& forall|k: int|
        0 <= k < out.partition_batches@.len() ==> (#[trigger] out.partition_batches@[k]).0 < n
    &&& forall|k: int|
        0 < k < out.partition_batches@.len() ==> (out.partition_batches@[k - 1]).0 < (
        #[trigger] out.partition_batches@[k]).0
    &&& forall|k: int|
        0 <= k < out.partition_batches@.len() ==> ((#[trigger] out.partition_batches@[k]).1)@
            .map_values(|b: Batch| b.rows()) == spec_stream_parts(
            batches,
            exprs,
            n,
            out.partition_batches@[k].0 as int,
        )
    &&& forall|p: int|
        0 <= p < n ==> ((#[trigger] spec_stream_parts(batches, exprs, n, p)).len() > 0 <==> exists|
            k: int,
        |
            0 <= k < out.partition_batches@.len() && (#[trigger] out.partition_batches@[k]).0
                == p)
    &&& forall|p: int|
        0 <= p < n && (#[trigger] spec_stream_parts(batches, exprs, n, p)).len() > 0 ==> {
            let k = spec_active_parts_upto(batches, exprs, n, p) as int;
            &&& 0 <= k < out.partition_batches@.len()
            &&& (out.partition_batches@[k]).0 == p
        }
    &&& forall|k: int|
        0 <= k < out.records@.len() ==> {
            let rec = #[trigger] out.records@[k];
            let subs = (out.partition_batches@[k].1)@;
            let parts = spec_stream_parts(batches, exprs, n, out.partition_batches@[k].0 as int);
            &&& rec.partition_id == out.partition_batches@[k].0 as u64
            &&& rec.path@ == spec_hash_sink_path(w, out.partition_batches@[k].0 as int, input_partition)
            &&& rec.num_rows == clamp_u64(spec_total_rows(subs))
            &&& rec.num_batches == clamp_u64(subs.len())
            &&& rec.num_bytes == clamp_u64(spec_total_bytes(subs))
            &&& rec.num_rows == clamp_u64(spec_parts_rows_total(parts))
            &&& rec.num_batches == clamp_u64(parts.len())
            &&& rec.num_bytes == clamp_u64(spec_parts_bytes_total(parts))
        }
    &&& out.metrics.input_rows == clamp_u64(spec_total_rows(batches))
    &&& out.metrics.output_rows == clamp_u64(spec_stream_routed(batches, exprs, n))
}

impl ShuffleWriterExec {
    /// Writes one input partition's batches: pass-through when no
    /// partitioning is configured, hash repartitioning across `n` outputs
    /// under `Hash(exprs, n)`; any other configured scheme is rejected.
    /// Returns one record per produced (non-empty) output partition,
    /// together with the batches each such partition is to receive and the
    /// invocation's metrics. `local_senders` says how many in-process
    /// channels the caller writes through, where it does.
    pub fn execute_shuffle_write(
        &self,
        input_partition: usize,
        batches: &Vec<Batch>,
        local_senders: Option<usize>,
    ) -> (r: Result<ShuffleWriteOutput, EngineError>)
        requires
            spec_all_wf(batches@),
            match self.shuffle_output_partitioning {
                Option::None => {
                    &&& (self.output_loc matches OutputLocation::Executors(execs) ==> execs@.len()
                        == 1)
                    &&& (self.output_loc is Executors && local_senders is Some ==> local_senders
                        == Some(1usize))
                },
                Option::Some(Partitioning::Hash(exprs, n)) => {
                    &&& n >= 1
                    &&& exprs@.len() >= 1
                    &&& (self.output_loc matches OutputLocation::Executors(execs) ==> execs@.len()
                        == n)
                    &&& (self.output_loc is Executors && local_senders is Some ==> local_senders
                        == Some(n))
                },
                Option::Some(_) => true,
            },
        ensures
            match self.shuffle_output_partitioning {
                Option::None => r matches Ok(out) && spec_passthrough_post(
                    *self,
                    input_partition as int,
                    batches@,
                    out,
                ),
                Option::Some(Partitioning::Hash(exprs, n)) => {
                    &&& (r is Ok <==> spec_exprs_fit(batches@, exprs@))
                    &&& (r matches Ok(out) ==> spec_hash_post(
                        *self,
                        input_partition as int,
                        batches@,
                        exprs@,
                        n as int,
                        out,
                    ))
                    &&& (r matches Err(e) ==> e is Execution)
                },
                Option::Some(_) => r matches Err(e) && e is Plan && e.spec_message()@
                    == "Invalid shuffle partitioning scheme"@,
            },
    {
        match &self.shuffle_output_partitioning {
            None => Ok(self.write_passthrough(input_partition, batches)),
            Some(Partitioning::Hash(exprs, n)) => {
                self.write_hash_partitioned(input_partition, batches, exprs, *n)
            },
            Some(_) => Err(
                EngineError::Plan(String::from_str("Invalid shuffle partitioning scheme")),
            ),
        }
    }

    /// Executes the node for one input partition and returns the metadata
    /// result batch: one row per produced output partition, under the
    /// columns of `result_schema` with the statistics struct flattened.
    pub fn execute(&self, input_partition: usize, batches: &Vec<Batch>) -> (r: Result<
        Batch,
        EngineError,
    >)
        requires
            spec_all_wf(batches@),
            match self.shuffle_output_partitioning {
                Option::None => self.output_loc matches OutputLocation::Executors(execs)
                    ==> execs@.len() == 1,
                Option::Some(Partitioning::Hash(exprs, n)) => {
                    &&& n >= 1
                    &&& exprs@.len() >= 1
                    &&& (self.output_loc matches OutputLocation::Executors(execs) ==> execs@.len()
                        == n)
                },
                Option::Some(_) => true,
            },
        ensures
            match self.shuffle_output_partitioning {
                Option::None => r matches Ok(b) && {
                    &&& b.wf()
                    &&& b.spec_num_columns() == 5
                    &&& b.spec_num_rows() == 1
                    &&& b.col(0)[0] == CellValue::UInt64(
                        ((input_partition as u64) % 0x1_0000_0000) as u64,
                    )
                    &&& (b.col(1)[0] matches CellValue::Utf8(s) && s@
                        == spec_passthrough_sink_path(*self, input_partition as int))
                    &&& b.col(2)[0] == CellValue::UInt64(clamp_u64(spec_total_rows(batches@)))
                    &&& b.col(3)[0] == CellValue::UInt64(clamp_u64(batches@.len()))
                    &&& b.col(4)[0] == CellValue::UInt64(clamp_u64(spec_total_bytes(batches@)))
                },
                Option::Some(Partitioning::Hash(exprs, n)) => {
                    &&& (r is Ok <==> spec_exprs_fit(batches@, exprs@))
                    &&& (r matches Ok(b) ==> b.wf() && b.spec_num_columns() == 5
                        && b.spec_num_rows() == spec_active_parts_upto(
                        batches@,
                        exprs@,
                        n as int,
                        n as int,
                    ))
                    &&& (r matches Ok(b) ==> forall|p: int|
                        0 <= p < n && (#[trigger] spec_stream_parts(
                            batches@,
                            exprs@,
                            n as int,
                            p,
                        )).len() > 0 ==> {
                            let k = spec_active_parts_upto(batches@, exprs@, n as int, p) as int;
                            let parts = spec_stream_parts(batches@, exprs@, n as int, p);
                            &&& b.col(0)[k] == CellValue::UInt64(
                                ((p as u64) % 0x1_0000_0000) as u64,
                            )
                            &&& (b.col(1)[k] matches CellValue::Utf8(s) && s@
                                == spec_hash_sink_path(*self, p, input_partition as int))
                            &&& b.col(2)[k] == CellValue::UInt64(
                                clamp_u64(spec_parts_rows_total(parts)),
                            )
                            &&& b.col(3)[k] == CellValue::UInt64(clamp_u64(parts.len()))
                            &&& b.col(4)[k] == CellValue::UInt64(
                                clamp_u64(spec_parts_bytes_total(parts)),
                            )
                        })
                    &&& (r matches Err(e) ==> e is Execution)
                },
                Option::Some(_) => r matches Err(e) && e is Plan && e.spec_message()@
                    == "Invalid shuffle partitioning scheme"@,
            },
    {
        let out = match self.execute_shuffle_write(input_partition, batches, None) {
            Ok(out) => out,
            Err(e) => {
                return Err(e);
            },
        };
        let b = metadata_batch(&out.records);
        proof {
            let ghost sop = self.shuffle_output_partitioning;
            match sop {
                Option::Some(Partitioning::Hash(exprs, n)) => {
                    assert forall|p: int|
                        0 <= p < n && (#[trigger] spec_stream_parts(
                            batches@,
                            exprs@,
                            n as int,
                            p,
                        )).len() > 0 implies {
                        let k = spec_active_parts_upto(batches@, exprs@, n as int, p) as int;
                        let parts = spec_stream_parts(batches@, exprs@, n as int, p);
                        &&& b.col(0)[k] == CellValue::UInt64(((p as u64) % 0x1_0000_0000) as u64)
                        &&& (b.col(1)[k] matches CellValue::Utf8(s) && s@ == spec_hash_sink_path(
                            *self,
                            p,
                            input_partition as int,
                        ))
                        &&& b.col(2)[k] == CellValue::UInt64(
                            clamp_u64(spec_parts_rows_total(parts)),
                        )
                        &&& b.col(3)[k] == CellValue::UInt64(clamp_u64(parts.len()))
                        &&& b.col(4)[k] == CellValue::UInt64(
                            clamp_u64(spec_parts_bytes_total(parts)),
                        )
                    } by {
                        let k = spec_active_parts_upto(batches@, exprs@, n as int, p) as int;
                        assert(0 <= k < out.partition_batches@.len());
                        assert((out.partition_batches@[k]).0 == p);
                        assert(out.records@[k].partition_id == p as u64);
                    }
                },
                _ => {},
            }
        }
        Ok(b)
    }

    /// The pass-through write path: the stream goes to a single output
    /// unchanged; one record carries the stream's totals.
    fn write_passthrough(&self, input_partition: usize, batches: &Vec<Batch>) -> (out:
        ShuffleWriteOutput)
        ensures
            spec_passthrough_post(*self, input_partition as int, batches@, out),
    {
        let mut total_rows: u64 = 0;
        let mut total_batches: u64 = 0;
        let mut total_bytes: u64 = 0;
        let mut i: usize = 0;
        while i < batches.len()
            invariant
                i <= batches@.len(),
                total_rows == clamp_u64(spec_total_rows(batches@.take(i as int))),
                total_batches == i as u64,
                total_bytes == clamp_u64(spec_total_bytes(batches@.take(i as int))),
            decreases batches@.len() - i,
        {
            proof {
                assert(batches@.take(i + 1).drop_last() =~= batches@.take(i as int));
                assert(batches@.take(i + 1).last() == batches@[i as int]);
            }
            total_rows = sat_add(total_rows, batches[i].num_rows() as u64);
            total_bytes = sat_add(total_bytes, batches[i].mem_bytes());
            total_batches = total_batches + 1;
            i += 1;
        }
        proof {
            assert(batches@.take(batches@.len() as int) =~= batches@);
        }
        let path = match &self.output_loc {
            OutputLocation::LocalDir(wd) => passthrough_file_path(
                wd.as_str(),
                self.job_id.as_str(),
                self.stage_id,
                input_partition,
            ),
            OutputLocation::Executors(_) => {
                let s = String::new();
                proof {
                    reveal_strlit("");
                    assert(s@ =~= ""@);
                }
                s
            },
        };
        let mut metrics = ShuffleWriteMetrics::new();
        metrics.add_input_rows(total_rows);
        metrics.add_output_rows(total_rows);
        let mut records: Vec<ShuffleWritePartition> = Vec::new();
        records.push(
            ShuffleWritePartition {
                partition_id: input_partition as u64,
                path,
                num_batches: total_batches,
                num_rows: total_rows,
                num_bytes: total_bytes,
            },
        );
        ShuffleWriteOutput { records, partition_batches: Vec::new(), metrics }
    }

    /// The hash write path: every batch of the stream is split by the hash
    /// of its key cells across `n` outputs; each output partition that
    /// receives a row gets a sink, whose statistics the produced record
    /// carries.
    #[verifier::rlimit(60)]
    #[verifier::spinoff_prover]
    fn write_hash_partitioned(
        &self,
        input_partition: usize,
        batches: &Vec<Batch>,
        exprs: &Vec<ColumnExpr>,
        n: usize,
    ) -> (r: Result<ShuffleWriteOutput, EngineError>)
        requires
            spec_all_wf(batches@),
            n >= 1,
            exprs@.len() >= 1,
        ensures
            r is Ok <==> spec_exprs_fit(batches@, exprs@),
            r matches Ok(out) ==> spec_hash_post(
                *self,
                input_partition as int,
                batches@,
                exprs@,
                n as int,
                out,
            ),
            r matches Err(e) ==> e is Execution,
    {
        let ghost all = batches@;
        let ghost exs = exprs@;
        let mut parts_all: Vec<Vec<Batch>> = Vec::new();
        let mut sinks: Vec<Option<ShuffleSink>> = Vec::new();
        let mut q: usize = 0;
        while q < n
            invariant
                q <= n,
                parts_all@.len() == q,
                sinks@.len() == q,
                forall|t: int| 0 <= t < q ==> (#[trigger] parts_all@[t])@.len() == 0,
                forall|t: int| 0 <= t < q ==> (#[trigger] sinks@[t]) is None,
            decreases n - q,
        {
            parts_all.push(Vec::new());
            sinks.push(None);
            q += 1;
        }
        let mut metrics = ShuffleWriteMetrics::new();
        let mut bi: usize = 0;
        while bi < batches.len()
            invariant
                bi <= all.len(),
                batches@ == all,
                exprs@ == exs,
                n >= 1,
                exs.len() >= 1,
                spec_all_wf(all),
                parts_all@.len() == n,
                sinks@.len() == n,
                spec_exprs_fit(all.take(bi as int), exs),
                forall|p: int|
                    0 <= p < n ==> ((#[trigger] parts_all@[p])@).map_values(|b: Batch| b.rows())
                        == spec_stream_parts(all.take(bi as int), exs, n as int, p),
                forall|p: int, m: int|
                    0 <= p < n && 0 <= m < (parts_all@[p])@.len() ==> (#[trigger] (
                    parts_all@[p])@[m]).wf(),
                forall|p: int|
                    0 <= p < n ==> ((#[trigger] sinks@[p]) is Some <==> spec_stream_parts(
                        all.take(bi as int),
                        exs,
                        n as int,
                        p,
                    ).len() > 0),
                forall|p: int|
                    0 <= p < n ==> ((#[trigger] sinks@[p]) matches Some(s) ==> {
                        &&& s.wf()
                        &&& !s.finished
                        &&& s.path@ == spec_hash_sink_path(*self, p, input_partition as int)
                        &&& s.num_rows == clamp_u64(spec_total_rows((parts_all@[p])@))
                        &&& s.num_batches == clamp_u64((parts_all@[p])@.len())
                        &&& s.num_bytes == clamp_u64(spec_total_bytes((parts_all@[p])@))
                    }),
                metrics.input_rows == clamp_u64(spec_total_rows(all.take(bi as int))),
                metrics.output_rows == clamp_u64(
                    spec_stream_routed(all.take(bi as int), exs, n as int),
                ),
            decreases all.len() - bi,
        {
            let batch = &batches[bi];
            metrics.add_input_rows(batch.num_rows() as u64);
            let mut subs = match split_batch(batch, exprs, n) {
                Ok(parts) => parts,
                Err(e) => {
                    proof {
                        let b0 = bi as int;
                        assert(!(forall|t: int|
                            0 <= t < exs.len() ==> (#[trigger] exs[t]).index
                                < all[b0].spec_num_columns()));
                        let t0 = choose|t: int|
                            !(0 <= t < exs.len() ==> exs[t].index < all[b0].spec_num_columns());
                        assert(0 <= t0 < exs.len()
                            && exs[t0].index >= all[b0].spec_num_columns());
                        assert(!spec_exprs_fit(all, exs));
                    }
                    return Err(e);
                },
            };
            let ghost subs_snapshot = subs@;
            let ghost pre_parts = parts_all@;
            let ghost pre_sinks = sinks@;
            let ghost pre_routed = spec_stream_routed(all.take(bi as int), exs, n as int);
            proof {
                assert(all.take(bi + 1).drop_last() =~= all.take(bi as int));
                assert(all.take(bi + 1).last() == all[bi as int]);
            }
            let mut p: usize = 0;
            while p < n
                invariant
                    p <= n,
                    bi < all.len(),
                    batches@ == all,
                    exprs@ == exs,
                    n >= 1,
                    spec_all_wf(all),
                    parts_all@.len() == n,
                    sinks@.len() == n,
                    subs@ =~= subs_snapshot.skip(p as int),
                    subs_snapshot.len() == n,
                    all.take(bi + 1).drop_last() =~= all.take(bi as int),
                    all.take(bi + 1).last() == all[bi as int],
                    forall|t: int|
                        0 <= t < n ==> (#[trigger] subs_snapshot[t]).wf()
                            && subs_snapshot[t].rows() == spec_split_rows(
                            all[bi as int],
                            exs,
                            n as int,
                            t,
                        ),
                    forall|t: int|
                        0 <= t < p ==> ((#[trigger] parts_all@[t])@).map_values(
                            |b: Batch| b.rows(),
                        ) == spec_stream_parts(all.take(bi + 1), exs, n as int, t),
                    forall|t: int|
                        p <= t < n ==> ((#[trigger] parts_all@[t])@).map_values(
                            |b: Batch| b.rows(),
                        ) == spec_stream_parts(all.take(bi as int), exs, n as int, t),
                    forall|t: int, m: int|
                        0 <= t < n && 0 <= m < (parts_all@[t])@.len() ==> (#[trigger] (
                        parts_all@[t])@[m]).wf(),
                    forall|t: int|
                        0 <= t < p ==> ((#[trigger] sinks@[t]) is Some <==> spec_stream_parts(
                            all.take(bi + 1),
                            exs,
                            n as int,
                            t,
                        ).len() > 0),
                    forall|t: int|
                        p <= t < n ==> ((#[trigger] sinks@[t]) is Some <==> spec_stream_parts(
                            all.take(bi as int),
                            exs,
                            n as int,
                            t,
                        ).len() > 0),
                    forall|t: int|
                        0 <= t < n ==> ((#[trigger] sinks@[t]) matches Some(s) ==> {
                            &&& s.wf()
                            &&& !s.finished
                            &&& s.path@ == spec_hash_sink_path(*self, t, input_partition as int)
                            &&& s.num_rows == clamp_u64(spec_total_rows((parts_all@[t])@))
                            &&& s.num_batches == clamp_u64((parts_all@[t])@.len())
                            &&& s.num_bytes == clamp_u64(spec_total_bytes((parts_all@[t])@))
                        }),
                    metrics.input_rows == clamp_u64(spec_total_rows(all.take(bi + 1))),
                    metrics.output_rows == clamp_u64(
                        (pre_routed + spec_routed_upto(all[bi as int], exs, n as int, p as int))
                            as nat,
                    ),
                    pre_routed == spec_stream_routed(all.take(bi as int), exs, n as int),
                decreases n - p,
            {
                let sub = subs.remove(0);
                proof {
                    assert(subs_snapshot.skip(p as int)[0] == subs_snapshot[p as int]);
                    assert(subs_snapshot.skip(p as int).remove(0) =~= subs_snapshot.skip(p + 1));
                }
                let rows_count = sub.num_rows();
                if rows_count > 0 {
                    let rows = rows_count as u64;
                    let bytes = sub.mem_bytes();
                    let ghost s0 = sinks@;
                    let ghost pa0 = parts_all@;
                    let ghost old_plist = (parts_all@[p as int])@;
                    let sink_slot = sinks.remove(p);
                    let mut sink = match sink_slot {
                        Some(s) => s,
                        None => {
                            let path = match &self.output_loc {
                                OutputLocation::LocalDir(wd) => hash_file_path(
                                    wd.as_str(),
                                    self.job_id.as_str(),
                                    self.stage_id,
                                    p,
                                    input_partition,
                                ),
                                OutputLocation::Executors(_) => {
                                    let s = String::new();
                                    proof {
                                        reveal_strlit("");
                                        assert(s@ =~= ""@);
                                    }
                                    s
                                },
                            };
                            ShuffleSink::new(path)
                        },
                    };
                    sink.write(rows, bytes);
                    let ghost sink_value = sink;
                    sinks.insert(p, Some(sink));
                    let mut plist = parts_all.remove(p);
                    plist.push(sub);
                    let ghost plist_value = plist;
                    parts_all.insert(p, plist);
                    metrics.add_output_rows(rows);
                    proof {
                        s0.remove_ensures(p as int);
                        s0.remove(p as int).insert_ensures(p as int, Some(sink_value));
                        assert(sinks@ =~= s0.update(p as int, Some(sink_value)));
                        pa0.remove_ensures(p as int);
                        pa0.remove(p as int).insert_ensures(p as int, plist_value);
                        assert(parts_all@ =~= pa0.update(p as int, plist_value));
                        assert(plist_value@ =~= old_plist.push(subs_snapshot[p as int]));
                        assert(plist_value@.drop_last() =~= old_plist);
                        assert(plist_value@.map_values(|b: Batch| b.rows()) =~= old_plist
                            .map_values(|b: Batch| b.rows()).push(subs_snapshot[p as int].rows()));
                        assert(spec_stream_parts(all.take(bi + 1), exs, n as int, p as int)
                            == spec_stream_parts(all.take(bi as int), exs, n as int, p as int)
                            .push(subs_snapshot[p as int].rows()));
                        assert(spec_total_rows(plist_value@) == spec_total_rows(old_plist)
                            + subs_snapshot[p as int].spec_num_rows());
                        assert(spec_total_bytes(plist_value@) == spec_total_bytes(old_plist)
                            + clamp_u64(subs_snapshot[p as int].spec_footprint()));
                        assert forall|t: int|
                            0 <= t < n && t != p implies sinks@[t] == s0[t] && parts_all@[t]
                                == pa0[t] by {}
                        assert(sinks@[p as int] == Some(sink_value));
                        assert(parts_all@[p as int] == plist_value);
                        assert(sink_value.num_rows == clamp_u64(spec_total_rows(plist_value@)));
                        assert(sink_value.num_batches == clamp_u64(plist_value@.len()));
                        assert(sink_value.num_bytes == clamp_u64(spec_total_bytes(plist_value@)));
                    }
                } else {
                    proof {
                        assert(subs_snapshot[p as int].rows().len() == 0);
                        assert(spec_split_rows(all[bi as int], exs, n as int, p as int).len()
                            == 0);
                        assert(spec_stream_parts(all.take(bi + 1), exs, n as int, p as int)
                            == spec_stream_parts(all.take(bi as int), exs, n as int, p as int));
                    }
                }
                p += 1;
            }
            proof {
                assert(all.take(bi + 1).take(bi as int) =~= all.take(bi as int));
            }
            bi += 1;
        }
        proof {
            assert(all.take(all.len() as int) =~= all);
        }
        let ghost final_parts = parts_all@;
        let ghost final_sinks = sinks@;
        let mut records: Vec<ShuffleWritePartition> = Vec::new();
        let mut entries: Vec<(usize, Vec<Batch>)> = Vec::new();
        let mut p: usize = 0;
        while p < n
            invariant
                p <= n,
                parts_all@ =~= final_parts.skip(p as int),
                sinks@ =~= final_sinks.skip(p as int),
                final_parts.len() == n,
                final_sinks.len() == n,
                records@.len() == entries@.len(),
                entries@.len() == spec_active_parts_upto(all, exs, n as int, p as int),
                forall|t: int|
                    0 <= t < n ==> ((#[trigger] final_sinks[t]) is Some <==> spec_stream_parts(
                        all,
                        exs,
                        n as int,
                        t,
                    ).len() > 0),
                forall|t: int|
                    0 <= t < n ==> ((#[trigger] final_sinks[t]) matches Some(s) ==> {
                        &&& s.wf()
                        &&& s.path@ == spec_hash_sink_path(*self, t, input_partition as int)
                        &&& s.num_rows == clamp_u64(spec_total_rows((final_parts[t])@))
                        &&& s.num_batches == clamp_u64((final_parts[t])@.len())
                        &&& s.num_bytes == clamp_u64(spec_total_bytes((final_parts[t])@))
                    }),
                forall|t: int|
                    0 <= t < n ==> ((#[trigger] final_parts[t])@).map_values(|b: Batch| b.rows())
                        == spec_stream_parts(all, exs, n as int, t),
                forall|t: int, m: int|
                    0 <= t < n && 0 <= m < (final_parts[t])@.len() ==> (#[trigger] (
                    final_parts[t])@[m]).wf(),
                forall|t: int|
                    0 <= t < p && (#[trigger] spec_stream_parts(all, exs, n as int, t)).len() > 0
                        ==> {
                        let k = spec_active_parts_upto(all, exs, n as int, t) as int;
                        &&& 0 <= k < entries@.len()
                        &&& (entries@[k]).0 == t
                    },
                forall|k: int|
                    0 <= k < entries@.len() ==> (#[trigger] entries@[k]).0 < p,
                forall|k: int|
                    0 < k < entries@.len() ==> (entries@[k - 1]).0 < (#[trigger] entries@[k]).0,
                forall|k: int|
                    0 <= k < entries@.len() ==> (#[trigger] entries@[k]).1 == final_parts[(
                    entries@[k]).0 as int],
                forall|t: int|
                    0 <= t < p ==> ((#[trigger] spec_stream_parts(all, exs, n as int, t)).len() > 0
                        <==> exists|k: int|
                        0 <= k < entries@.len() && (#[trigger] entries@[k]).0 == t),
                forall|k: int|
                    0 <= k < records@.len() ==> {
                        let rec = #[trigger] records@[k];
                        let subs = (entries@[k].1)@;
                        let parts = spec_stream_parts(all, exs, n as int, entries@[k].0 as int);
                        &&& rec.partition_id == entries@[k].0 as u64
                        &&& rec.path@ == spec_hash_sink_path(
                            *self,
                            entries@[k].0 as int,
                            input_partition as int,
                        )
                        &&& rec.num_rows == clamp_u64(spec_total_rows(subs))
                        &&& rec.num_batches == clamp_u64(subs.len())
                        &&& rec.num_bytes == clamp_u64(spec_total_bytes(subs))
                        &&& rec.num_rows == clamp_u64(spec_parts_rows_total(parts))
                        &&& rec.num_batches == clamp_u64(parts.len())
                        &&& rec.num_bytes == clamp_u64(spec_parts_bytes_total(parts))
                    },
            decreases n - p,
        {
            let sink_slot = sinks.remove(0);
            let plist = parts_all.remove(0);
            proof {
                assert(final_sinks.skip(p as int)[0] == final_sinks[p as int]);
                assert(final_parts.skip(p as int)[0] == final_parts[p as int]);
                assert(final_sinks.skip(p as int).remove(0) =~= final_sinks.skip(p + 1));
                assert(final_parts.skip(p as int).remove(0) =~= final_parts.skip(p + 1));
            }
            match sink_slot {
                Some(mut s) => {
                    s.finish();
                    records.push(
                        ShuffleWritePartition {
                            partition_id: p as u64,
                            path: s.path.clone(),
                            num_batches: s.num_batches(),
                            num_rows: s.num_rows(),
                            num_bytes: s.num_bytes(),
                        },
                    );
                    let ghost old_entries = entries@;
                    let ghost plist_snap = plist;
                    entries.push((p, plist));
                    proof {
                        assert(plist_snap == final_parts[p as int]);
                        assert(forall|m: int|
                            0 <= m < (final_parts[p as int])@.len() ==> (#[trigger] (
                            final_parts[p as int])@[m]).wf());
                        lemma_total_rows_by_rows((final_parts[p as int])@);
                        lemma_total_bytes_by_rows((final_parts[p as int])@);
                        assert((final_parts[p as int])@.map_values(|b: Batch| b.rows())
                            == spec_stream_parts(all, exs, n as int, p as int));
                        assert(old_entries.len() == spec_active_parts_upto(
                            all,
                            exs,
                            n as int,
                            p as int,
                        ));
                        assert(entries@ == old_entries.push((p, plist_snap)));
                        assert(forall|k: int|
                            0 <= k < old_entries.len() ==> #[trigger] entries@[k]
                                == old_entries[k]);
                        assert((entries@[entries@.len() - 1]).0 == p as int);
                        assert forall|t: int|
                            0 <= t < p + 1 implies ((#[trigger] spec_stream_parts(
                            all,
                            exs,
                            n as int,
                            t,
                        )).len() > 0 <==> exists|k: int|
                            0 <= k < entries@.len() && (#[trigger] entries@[k]).0 == t) by {
                            if t == p as int {
                                assert(spec_stream_parts(all, exs, n as int, t).len() > 0);
                                assert((entries@[entries@.len() - 1]).0 == t);
                                assert(exists|k: int|
                                    0 <= k < entries@.len() && (#[trigger] entries@[k]).0 == t);
                            } else {
                                if spec_stream_parts(all, exs, n as int, t).len() > 0 {
                                    let k0 = choose|k: int|
                                        0 <= k < old_entries.len() && (#[trigger] old_entries[k]).0
                                            == t;
                                    assert(entries@[k0] == old_entries[k0]);
                                    assert(exists|k: int|
                                        0 <= k < entries@.len() && (#[trigger] entries@[k]).0
                                            == t);
                                }
                                if exists|k: int|
                                    0 <= k < entries@.len() && (#[trigger] entries@[k]).0 == t {
                                    let k1 = choose|k: int|
                                        0 <= k < entries@.len() && (#[trigger] entries@[k]).0
                                            == t;
                                    assert(k1 < old_entries.len());
                                    assert(old_entries[k1].0 == t);
                                    assert(spec_stream_parts(all, exs, n as int, t).len() > 0);
                                }
                            }
                        }
                    }
                },
                None => {
                    proof {
                        assert(spec_stream_parts(all, exs, n as int, p as int).len() == 0);
                        assert forall|t: int|
                            0 <= t < p + 1 implies ((#[trigger] spec_stream_parts(
                            all,
                            exs,
                            n as int,
                            t,
                        )).len() > 0 <==> exists|k: int|
                            0 <= k < entries@.len() && (#[trigger] entries@[k]).0 == t) by {
                            if t == p as int {
                                assert(forall|k: int|
                                    0 <= k < entries@.len() ==> (#[trigger] entries@[k]).0 < p);
                            }
                        }
                    }
                },
            }
            p += 1;
        }
        Ok(ShuffleWriteOutput { records, partition_batches: entries, metrics })
    }
}

} // verus!
