//! Deterministic row hashing for hash partitioning.
//!
//! Key cells are hashed with ahash under the fixed seed tuple `(0, 0, 0, 0)`,
//! so that matching shuffles produce identical partition assignments across
//! executors. Cell hashes are combined across the key columns with a
//! multiply-and-add combiner; a null key cell leaves the running row hash
//! unchanged.
use vstd::prelude::*;

use crate::batch::{Batch, CellValue};
use crate::error::EngineError;
use crate::expr::ColumnExpr;

verus! {

/// The ahash value, under seeds `(0, 0, 0, 0)`, of an unsigned 64-bit value.
pub uninterp spec fn ahash_of_u64(v: u64) -> u64;

/// The ahash value, under seeds `(0, 0, 0, 0)`, of a string.
pub uninterp spec fn ahash_of_str(s: Seq<char>) -> u64;

/// Relies on ahash's `RandomState::with_seeds` and `hash_one`: with all four
/// seeds fixed the hash of a `u64` is a function of that value alone.
#[verifier::external_body]
fn hash_one_u64(v: u64) -> (r: u64)
    ensures
        r == ahash_of_u64(v),
{
    ahash::RandomState::with_seeds(0, 0, 0, 0).hash_one(v)
}

/// Relies on ahash's `RandomState::with_seeds` and `hash_one`: with all four
/// seeds fixed the hash of a string is a function of its text alone.
#[verifier::external_body]
fn hash_one_str(s: &str) -> (r: u64)
    ensures
        r == ahash_of_str(s@),
{
    ahash::RandomState::with_seeds(0, 0, 0, 0).hash_one(s)
}

/// Tags distinguishing the cell kinds in a hash, so that cells of different
/// kinds holding the same payload bits hash apart.
pub const HASH_TAG_INT64: u64 = 1;

pub const HASH_TAG_UINT64: u64 = 2;

pub const HASH_TAG_FLOAT64: u64 = 3;

pub const HASH_TAG_UTF8: u64 = 4;

/// How two 64-bit hashes are combined: multiply-and-add, wrapping.
pub open spec fn spec_combine_hashes(l: u64, r: u64) -> u64 {
    vstd::wrapping::u64_specs::wrapping_add(vstd::wrapping::u64_specs::wrapping_mul(l, 37), r)
}

/// Combines two 64-bit hashes.
pub fn combine_hashes(l: u64, r: u64) -> (h: u64)
    ensures
        h == spec_combine_hashes(l, r),
{
    l.wrapping_mul(37).wrapping_add(r)
}

/// The hash of one cell: its kind's tag combined with the ahash of its
/// payload. A null cell has no hash.
pub open spec fn spec_cell_hash(c: CellValue) -> Option<u64> {
    match c {
        CellValue::Null => None,
        CellValue::Int64(v) => Some(spec_combine_hashes(HASH_TAG_INT64, ahash_of_u64(v as u64))),
        CellValue::UInt64(v) => Some(spec_combine_hashes(HASH_TAG_UINT64, ahash_of_u64(v))),
        CellValue::Float64Bits(v) => Some(
            spec_combine_hashes(HASH_TAG_FLOAT64, ahash_of_u64(v)),
        ),
        CellValue::Utf8(s) => Some(spec_combine_hashes(HASH_TAG_UTF8, ahash_of_str(s@))),
    }
}

/// Hashes one cell.
pub fn cell_hash(c: &CellValue) -> (r: Option<u64>)
    ensures
        r == spec_cell_hash(*c),
{
    match c {
        CellValue::Null => None,
        CellValue::Int64(v) => Some(combine_hashes(HASH_TAG_INT64, hash_one_u64(*v as u64))),
        CellValue::UInt64(v) => Some(combine_hashes(HASH_TAG_UINT64, hash_one_u64(*v))),
        CellValue::Float64Bits(v) => Some(combine_hashes(HASH_TAG_FLOAT64, hash_one_u64(*v))),
        CellValue::Utf8(s) => Some(combine_hashes(HASH_TAG_UTF8, hash_one_str(s.as_str()))),
    }
}

/// The combined hash of a row's key cells, folded over the key expressions
/// in order, starting from zero. A null key cell leaves the hash unchanged.
pub open spec fn spec_row_hash(row: Seq<CellValue>, exprs: Seq<ColumnExpr>) -> u64
    decreases exprs.len(),
{
    if exprs.len() == 0 {
        0u64
    } else {
        let h = spec_row_hash(row, exprs.drop_last());
        match spec_cell_hash(row[exprs.last().index as int]) {
            None => h,
            Some(ch) => spec_combine_hashes(h, ch),
        }
    }
}

/// Hashes every row of the batch over the key expressions. Succeeds exactly
/// when every key expression names a column of the batch.
pub fn batch_row_hashes(batch: &Batch, exprs: &Vec<ColumnExpr>) -> (r: Result<
    Vec<u64>,
    EngineError,
>)
    requires
        batch.wf(),
        exprs@.len() >= 1,
    ensures
        r is Ok <==> forall|e: int|
            0 <= e < exprs@.len() ==> (#[trigger] exprs@[e]).index < batch.spec_num_columns(),
        r matches Err(e) ==> e is Execution,
        r matches Ok(h) ==> {
            &&& h@.len() == batch.spec_num_rows()
            &&& forall|i: int|
                0 <= i < h@.len() ==> #[trigger] h@[i] == spec_row_hash(batch.row(i), exprs@)
        },
{
    let num_columns = batch.num_columns();
    let mut e: usize = 0;
    while e < exprs.len()
        invariant
            e <= exprs@.len(),
            num_columns == batch.spec_num_columns(),
            forall|t: int| 0 <= t < e ==> (#[trigger] exprs@[t]).index < num_columns,
        decreases exprs@.len() - e,
    {
        if exprs[e].index >= num_columns {
            return Err(
                EngineError::Execution(
                    String::from_str("hash key expression names a column the batch does not have"),
                ),
            );
        }
        e += 1;
    }
    let num_rows = batch.num_rows();
    let mut hashes: Vec<u64> = Vec::new();
    let mut i: usize = 0;
    while i < num_rows
        invariant
            batch.wf(),
            i <= num_rows,
            num_rows == batch.spec_num_rows(),
            forall|t: int| 0 <= t < exprs@.len() ==> (#[trigger] exprs@[t]).index
                < batch.spec_num_columns(),
            hashes@.len() == i,
            forall|t: int|
                0 <= t < i ==> #[trigger] hashes@[t] == spec_row_hash(batch.row(t), exprs@),
        decreases num_rows - i,
    {
        let mut h: u64 = 0;
        let mut e: usize = 0;
        while e < exprs.len()
            invariant
                batch.wf(),
                i < batch.spec_num_rows(),
                e <= exprs@.len(),
                forall|t: int| 0 <= t < exprs@.len() ==> (#[trigger] exprs@[t]).index
                    < batch.spec_num_columns(),
                h == spec_row_hash(batch.row(i as int), exprs@.take(e as int)),
            decreases exprs@.len() - e,
        {
            let cell = batch.cell(i, exprs[e].index);
            match cell_hash(cell) {
                None => {},
                Some(ch) => {
                    h = combine_hashes(h, ch);
                },
            }
            proof {
                assert(exprs@.take(e + 1).drop_last() =~= exprs@.take(e as int));
                assert(exprs@.take(e + 1).last() == exprs@[e as int]);
            }
            e += 1;
        }
        proof {
            assert(exprs@.take(exprs@.len() as int) =~= exprs@);
        }
        hashes.push(h);
        i += 1;
    }
    Ok(hashes)
}

} // verus!
