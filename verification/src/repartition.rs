//! Hash repartitioning.
//!
//! Given the row hashes of a batch and a number of output partitions `n`,
//! row `i` with hash `h` is routed to partition `h mod n`. The index lists
//! of all partitions form a partition of the batch's row indices, so the
//! rows gathered for the output partitions are, as a multiset, exactly the
//! rows of the input batch.
use vstd::multiset::Multiset;
use vstd::prelude::*;
use vstd::seq_lib::group_to_multiset_ensures;

use crate::batch::{Batch, CellValue};
use crate::error::EngineError;
use crate::expr::ColumnExpr;
use crate::hashing::{batch_row_hashes, spec_row_hash};

verus! {

/// The output partition of a row hash: the remainder of the hash by the
/// partition count.
pub open spec fn spec_partition_of(h: u64, n: int) -> int
    recommends
        n >= 1,
{
    (h as int) % n
}

/// The output partition that a row lands in: a function of the row's key
/// cells, the key expressions and the partition count alone.
pub open spec fn spec_row_partition(row: Seq<CellValue>, exprs: Seq<ColumnExpr>, n: int) -> int {
    spec_partition_of(spec_row_hash(row, exprs), n)
}

/// The output partition of a row hash.
pub fn partition_of(h: u64, n: usize) -> (p: usize)
    requires
        n >= 1,
    ensures
        p == spec_partition_of(h, n as int),
        p < n,
{
    (h % (n as u64)) as usize
}

/// The index list of partition `p`: the indices `i` of the hashes routed to
/// `p`, in increasing order.
pub open spec fn spec_partition_list(hashes: Seq<u64>, n: int, p: int) -> Seq<u64>
    decreases hashes.len(),
{
    if hashes.len() == 0 {
        Seq::empty()
    } else {
        let pre = spec_partition_list(hashes.drop_last(), n, p);
        if spec_partition_of(hashes.last(), n) == p {
            pre.push((hashes.len() - 1) as u64)
        } else {
            pre
        }
    }
}

/// The multiset of all entries of a list of sequences.
pub open spec fn seqs_multiset<T>(lists: Seq<Seq<T>>) -> Multiset<T>
    decreases lists.len(),
{
    if lists.len() == 0 {
        Multiset::empty()
    } else {
        seqs_multiset(lists.drop_last()).add(lists.last().to_multiset())
    }
}

/// Pushing one entry onto one of the sequences inserts it into the combined
/// multiset.
proof fn lemma_seqs_multiset_push<T>(lists: Seq<Seq<T>>, p: int, x: T)
    requires
        0 <= p < lists.len(),
    ensures
        seqs_multiset(lists.update(p, lists[p].push(x))) =~= seqs_multiset(lists).insert(x),
    decreases lists.len(),
{
    broadcast use group_to_multiset_ensures;

    let updated = lists.update(p, lists[p].push(x));
    if p == lists.len() - 1 {
        assert(updated.drop_last() =~= lists.drop_last());
        assert(updated.last() == lists.last().push(x));
    } else {
        assert(updated.drop_last() =~= lists.drop_last().update(p, lists[p].push(x)));
        assert(updated.last() == lists.last());
        lemma_seqs_multiset_push(lists.drop_last(), p, x);
    }
}

/// The image of the index lists under `f`, combined across the partitions,
/// is the image of all row indices: every row is gathered into exactly one
/// partition.
pub proof fn lemma_partition_lists_gather<T>(hashes: Seq<u64>, n: int, f: spec_fn(u64) -> T)
    requires
        n >= 1,
    ensures
        seqs_multiset(
            Seq::new(n as nat, |p: int| spec_partition_list(hashes, n, p).map_values(f)),
        ) =~= Seq::new(hashes.len(), |i: int| f(i as u64)).to_multiset(),
    decreases hashes.len(),
{
    broadcast use group_to_multiset_ensures;

    let lists = Seq::new(n as nat, |p: int| spec_partition_list(hashes, n, p).map_values(f));
    if hashes.len() == 0 {
        assert(Seq::new(0, |i: int| f(i as u64)).to_multiset() =~= Multiset::<T>::empty());
        lemma_seqs_multiset_all_empty(lists);
    } else {
        let pre = hashes.drop_last();
        let m = pre.len() as int;
        let pstar = spec_partition_of(hashes.last(), n);
        lemma_partition_lists_gather(pre, n, f);
        let pre_lists = Seq::new(n as nat, |p: int| spec_partition_list(pre, n, p).map_values(f));
        assert forall|p: int| 0 <= p < n implies spec_partition_list(hashes, n, p) == (if p == pstar {
            spec_partition_list(pre, n, p).push(m as u64)
        } else {
            spec_partition_list(pre, n, p)
        }) by {
            assert(hashes.drop_last() == pre);
        }
        assert(lists =~= pre_lists.update(
            pstar,
            pre_lists[pstar].push(f(m as u64)),
        )) by {
            assert forall|p: int| 0 <= p < n implies lists[p] == pre_lists.update(
                pstar,
                pre_lists[pstar].push(f(m as u64)),
            )[p] by {
                if p == pstar {
                    assert(spec_partition_list(hashes, n, p) == spec_partition_list(
                        pre,
                        n,
                        p,
                    ).push(m as u64));
                    assert(spec_partition_list(pre, n, p).push(m as u64).map_values(f)
                        =~= spec_partition_list(pre, n, p).map_values(f).push(f(m as u64)));
                }
            }
        }
        lemma_seqs_multiset_push(pre_lists, pstar, f(m as u64));
        assert(Seq::new(hashes.len(), |i: int| f(i as u64)) =~= Seq::new(
            pre.len(),
            |i: int| f(i as u64),
        ).push(f(m as u64)));
    }
}

/// A list of empty sequences has an empty combined multiset.
proof fn lemma_seqs_multiset_all_empty<T>(lists: Seq<Seq<T>>)
    requires
        forall|p: int| 0 <= p < lists.len() ==> (#[trigger] lists[p]).len() == 0,
    ensures
        seqs_multiset(lists) =~= Multiset::<T>::empty(),
    decreases lists.len(),
{
    broadcast use group_to_multiset_ensures;

    if lists.len() > 0 {
        lemma_seqs_multiset_all_empty(lists.drop_last());
        assert(lists.last() =~= Seq::<T>::empty());
        assert(lists.last().to_multiset().len() == 0);
        assert(lists.last().to_multiset() =~= Multiset::<T>::empty());
    }
}

/// Builds the `n` index lists: index `i` goes to list `hashes[i] mod n`.
pub fn partition_indices(hashes: &Vec<u64>, n: usize) -> (r: Vec<Vec<u64>>)
    requires
        n >= 1,
    ensures
        r@.len() == n,
        forall|p: int|
            0 <= p < n ==> (#[trigger] r@[p])@ == spec_partition_list(
                hashes@,
                n as int,
                p,
            ),
{
    let mut lists: Vec<Vec<u64>> = Vec::new();
    let mut p: usize = 0;
    while p < n
        invariant
            lists@.len() == p,
            p <= n,
            forall|q: int| 0 <= q < p ==> (#[trigger] lists@[q])@.len() == 0,
        decreases n - p,
    {
        lists.push(Vec::new());
        p += 1;
    }
    let mut i: usize = 0;
    while i < hashes.len()
        invariant
            n >= 1,
            i <= hashes@.len(),
            lists@.len() == n,
            forall|q: int|
                0 <= q < n ==> (#[trigger] lists@[q])@ == spec_partition_list(
                    hashes@.take(i as int),
                    n as int,
                    q,
                ),
        decreases hashes@.len() - i,
    {
        let h = hashes[i];
        let p = partition_of(h, n);
        let ghost prev = lists@;
        let mut list = lists.remove(p);
        list.push(i as u64);
        let ghost elem = list;
        lists.insert(p, list);
        proof {
            let mid = prev.remove(p as int);
            prev.remove_ensures(p as int);
            mid.insert_ensures(p as int, elem);
            let pre = hashes@.take(i as int);
            let cur = hashes@.take(i + 1);
            assert(cur.drop_last() =~= pre);
            assert(cur.last() == hashes@[i as int]);
            assert forall|q: int| 0 <= q < n implies (#[trigger] lists@[q])@
                == spec_partition_list(cur, n as int, q) by {
                if q == p {
                    assert(lists@[q] == elem);
                    assert(elem@ == prev[q]@.push(i as u64));
                    assert(spec_partition_list(cur, n as int, q) == spec_partition_list(
                        pre,
                        n as int,
                        q,
                    ).push(i as u64));
                } else {
                    if q < p {
                        assert(lists@[q] == mid[q]);
                        assert(mid[q] == prev[q]);
                    } else {
                        assert(lists@[q] == mid[q - 1]);
                        assert(mid[q - 1] == prev[q]);
                    }
                    assert(spec_partition_list(cur, n as int, q) == spec_partition_list(
                        pre,
                        n as int,
                        q,
                    ));
                }
            }
        }
        i += 1;
    }
    proof {
        assert(hashes@.take(hashes@.len() as int) =~= hashes@);
    }
    lists
}

/// Splits a batch into `n` output batches by the hash of each row's key
/// cells. Output batch `p` holds, in input order, exactly the rows routed to
/// partition `p`; together the outputs hold exactly the input rows.
/// Succeeds exactly when every key expression names a column of the batch.
pub fn split_batch(batch: &Batch, exprs: &Vec<ColumnExpr>, n: usize) -> (r: Result<
    Vec<Batch>,
    EngineError,
>)
    requires
        batch.wf(),
        exprs@.len() >= 1,
        n >= 1,
    ensures
        r is Ok <==> forall|e: int|
            0 <= e < exprs@.len() ==> (#[trigger] exprs@[e]).index < batch.spec_num_columns(),
        r matches Err(e) ==> e is Execution,
        r matches Ok(parts) ==> {
            &&& parts@.len() == n
            &&& forall|p: int| 0 <= p < n ==> (#[trigger] parts@[p]).wf()
            &&& forall|p: int|
                0 <= p < n ==> (#[trigger] parts@[p]).rows() == spec_partition_list(
                    Seq::new(batch.spec_num_rows(), |i: int| spec_row_hash(batch.row(i), exprs@)),
                    n as int,
                    p,
                ).map_values(|i: u64| batch.row(i as int))
            &&& seqs_multiset(parts@.map_values(|b: Batch| b.rows())) == batch.rows().to_multiset()
        },
{
    let hashes = match batch_row_hashes(batch, exprs) {
        Ok(h) => h,
        Err(e) => {
            return Err(e);
        },
    };
    let ghost spec_hashes = Seq::new(
        batch.spec_num_rows(),
        |i: int| spec_row_hash(batch.row(i), exprs@),
    );
    proof {
        assert(hashes@ =~= spec_hashes);
    }
    let lists = partition_indices(&hashes, n);
    let mut parts: Vec<Batch> = Vec::new();
    let mut p: usize = 0;
    while p < n
        invariant
            batch.wf(),
            n >= 1,
            p <= n,
            parts@.len() == p,
            lists@.len() == n,
            spec_hashes.len() == batch.spec_num_rows(),
            forall|q: int|
                0 <= q < n ==> (#[trigger] lists@[q])@ == spec_partition_list(
                    spec_hashes,
                    n as int,
                    q,
                ),
            forall|q: int| 0 <= q < p ==> (#[trigger] parts@[q]).wf(),
            forall|q: int|
                0 <= q < p ==> (#[trigger] parts@[q]).rows() == spec_partition_list(
                    spec_hashes,
                    n as int,
                    q,
                ).map_values(|i: u64| batch.row(i as int)),
        decreases n - p,
    {
        proof {
            lemma_partition_list_in_range(spec_hashes, n as int, p as int);
        }
        let part = match batch.take(&lists[p]) {
            Ok(b) => b,
            Err(e) => {
                proof {
                    assert(false);
                }
                return Err(e);
            },
        };
        parts.push(part);
        p += 1;
    }
    proof {
        lemma_partition_lists_gather(spec_hashes, n as int, |i: u64| batch.row(i as int));
        assert(parts@.map_values(|b: Batch| b.rows()) =~= Seq::new(
            n as nat,
            |q: int| spec_partition_list(spec_hashes, n as int, q).map_values(
                |i: u64| batch.row(i as int),
            ),
        ));
        assert(batch.rows() =~= Seq::new(
            spec_hashes.len(),
            |i: int| (|j: u64| batch.row(j as int))(i as u64),
        ));
    }
    Ok(parts)
}

/// Every entry of a partition's index list is a row index of the hashed
/// sequence.
pub proof fn lemma_partition_list_in_range(hashes: Seq<u64>, n: int, p: int)
    requires
        n >= 1,
        hashes.len() <= u64::MAX,
    ensures
        forall|k: int|
            0 <= k < spec_partition_list(hashes, n, p).len()
                ==> (#[trigger] spec_partition_list(hashes, n, p)[k]) < hashes.len(),
    decreases hashes.len(),
{
    if hashes.len() > 0 {
        lemma_partition_list_in_range(hashes.drop_last(), n, p);
        let pre = spec_partition_list(hashes.drop_last(), n, p);
        let cur = spec_partition_list(hashes, n, p);
        if spec_partition_of(hashes.last(), n) == p {
            assert(cur == pre.push((hashes.len() - 1) as u64));
            assert forall|k: int| 0 <= k < cur.len() implies cur[k] < hashes.len() by {
                if k < pre.len() {
                    assert(cur[k] == pre[k]);
                    assert(pre[k] < hashes.drop_last().len());
                } else {
                    assert(cur[k] == (hashes.len() - 1) as u64);
                }
            }
        } else {
            assert(cur == pre);
            assert forall|k: int| 0 <= k < cur.len() implies cur[k] < hashes.len() by {
                assert(pre[k] < hashes.drop_last().len());
            }
        }
    }
}

/// The row hashes of a batch over the key expressions.
pub open spec fn spec_batch_hashes(b: Batch, exprs: Seq<ColumnExpr>) -> Seq<u64> {
    Seq::new(b.spec_num_rows(), |i: int| spec_row_hash(b.row(i), exprs))
}

/// The rows of a batch gathered for output partition `p`, in input order.
pub open spec fn spec_split_rows(b: Batch, exprs: Seq<ColumnExpr>, n: int, p: int) -> Seq<
    Seq<CellValue>,
> {
    spec_partition_list(spec_batch_hashes(b, exprs), n, p).map_values(|i: u64| b.row(i as int))
}

/// What a stream of batches contributes to output partition `p`: for each
/// input batch that routed at least one row to `p`, in stream order, the
/// rows gathered for `p`.
pub open spec fn spec_stream_parts(
    batches: Seq<Batch>,
    exprs: Seq<ColumnExpr>,
    n: int,
    p: int,
) -> Seq<Seq<Seq<CellValue>>>
    decreases batches.len(),
{
    if batches.len() == 0 {
        Seq::empty()
    } else {
        let pre = spec_stream_parts(batches.drop_last(), exprs, n, p);
        let rs = spec_split_rows(batches.last(), exprs, n, p);
        if rs.len() > 0 {
            pre.push(rs)
        } else {
            pre
        }
    }
}

/// The sum of a list of multisets.
pub open spec fn ms_sum<T>(s: Seq<Multiset<T>>) -> Multiset<T>
    decreases s.len(),
{
    if s.len() == 0 {
        Multiset::empty()
    } else {
        ms_sum(s.drop_last()).add(s.last())
    }
}

/// The multiset of all rows of a stream of batches.
pub open spec fn stream_rows_ms(batches: Seq<Batch>) -> Multiset<Seq<CellValue>>
    decreases batches.len(),
{
    if batches.len() == 0 {
        Multiset::empty()
    } else {
        stream_rows_ms(batches.drop_last()).add(batches.last().rows().to_multiset())
    }
}

/// Summing pointwise sums of two multiset lists sums the two lists' sums.
proof fn lemma_ms_sum_pointwise_add<T>(a: Seq<Multiset<T>>, b: Seq<Multiset<T>>)
    requires
        a.len() == b.len(),
    ensures
        ms_sum(Seq::new(a.len(), |p: int| a[p].add(b[p]))) =~= ms_sum(a).add(ms_sum(b)),
    decreases a.len(),
{
    let combined = Seq::new(a.len(), |p: int| a[p].add(b[p]));
    if a.len() > 0 {
        lemma_ms_sum_pointwise_add(a.drop_last(), b.drop_last());
        assert(combined.drop_last() =~= Seq::new(
            a.drop_last().len(),
            |p: int| a.drop_last()[p].add(b.drop_last()[p]),
        ));
        assert(combined.last() == a.last().add(b.last()));
    }
}

/// The sum of the element multisets of a list of sequences is the list's
/// combined multiset.
proof fn lemma_ms_sum_of_seqs<T>(lists: Seq<Seq<T>>)
    ensures
        ms_sum(lists.map_values(|l: Seq<T>| l.to_multiset())) =~= seqs_multiset(lists),
    decreases lists.len(),
{
    let mapped = lists.map_values(|l: Seq<T>| l.to_multiset());
    if lists.len() > 0 {
        lemma_ms_sum_of_seqs(lists.drop_last());
        assert(mapped.drop_last() =~= lists.drop_last().map_values(|l: Seq<T>| l.to_multiset()));
        assert(mapped.last() == lists.last().to_multiset());
    }
}

/// A list of empty multisets sums to the empty multiset.
proof fn lemma_ms_sum_all_empty<T>(s: Seq<Multiset<T>>)
    requires
        forall|p: int| 0 <= p < s.len() ==> (#[trigger] s[p]) =~= Multiset::<T>::empty(),
    ensures
        ms_sum(s) =~= Multiset::<T>::empty(),
    decreases s.len(),
{
    if s.len() > 0 {
        lemma_ms_sum_all_empty(s.drop_last());
    }
}

/// Union preservation across a whole stream: the rows that the output
/// partitions receive, combined over all partitions, are exactly the rows
/// of the input stream, as a multiset.
pub proof fn lemma_shuffle_preserves_rows(batches: Seq<Batch>, exprs: Seq<ColumnExpr>, n: int)
    requires
        n >= 1,
    ensures
        ms_sum(
            Seq::new(
                n as nat,
                |p: int| seqs_multiset(spec_stream_parts(batches, exprs, n, p)),
            ),
        ) =~= stream_rows_ms(batches),
    decreases batches.len(),
{
    broadcast use group_to_multiset_ensures;

    let cur = Seq::new(n as nat, |p: int| seqs_multiset(spec_stream_parts(batches, exprs, n, p)));
    if batches.len() == 0 {
        assert forall|p: int| 0 <= p < n implies (#[trigger] cur[p]) =~= Multiset::<
            Seq<CellValue>,
        >::empty() by {
            assert(spec_stream_parts(batches, exprs, n, p) =~= Seq::<Seq<Seq<CellValue>>>::empty());
        }
        lemma_ms_sum_all_empty(cur);
    } else {
        let pre = batches.drop_last();
        let b = batches.last();
        lemma_shuffle_preserves_rows(pre, exprs, n);
        let prev = Seq::new(n as nat, |p: int| seqs_multiset(spec_stream_parts(pre, exprs, n, p)));
        let lists = Seq::new(n as nat, |p: int| spec_split_rows(b, exprs, n, p));
        let add = Seq::new(n as nat, |p: int| spec_split_rows(b, exprs, n, p).to_multiset());
        assert forall|p: int| 0 <= p < n implies (#[trigger] cur[p]) =~= prev[p].add(add[p]) by {
            let rs = spec_split_rows(b, exprs, n, p);
            let pre_parts = spec_stream_parts(pre, exprs, n, p);
            if rs.len() > 0 {
                assert(spec_stream_parts(batches, exprs, n, p) == pre_parts.push(rs));
                assert(pre_parts.push(rs).drop_last() =~= pre_parts);
            } else {
                assert(spec_stream_parts(batches, exprs, n, p) == pre_parts);
                assert(rs =~= Seq::<Seq<CellValue>>::empty());
                assert(rs.to_multiset().len() == 0);
                assert(rs.to_multiset() =~= Multiset::<Seq<CellValue>>::empty());
            }
        }
        assert(cur =~= Seq::new(n as nat, |p: int| prev[p].add(add[p])));
        lemma_ms_sum_pointwise_add(prev, add);
        lemma_ms_sum_of_seqs(lists);
        assert(add =~= lists.map_values(|l: Seq<Seq<CellValue>>| l.to_multiset()));
        lemma_partition_lists_gather(spec_batch_hashes(b, exprs), n, |i: u64| b.row(i as int));
        assert(lists =~= Seq::new(
            n as nat,
            |p: int| spec_partition_list(spec_batch_hashes(b, exprs), n, p).map_values(
                |i: u64| b.row(i as int),
            ),
        ));
        assert(b.rows() =~= Seq::new(
            spec_batch_hashes(b, exprs).len(),
            |i: int| (|j: u64| b.row(j as int))(i as u64),
        ));
    }
}

/// How many rows of a batch are routed to the partitions below `k`.
pub open spec fn spec_routed_upto(b: Batch, exprs: Seq<ColumnExpr>, n: int, k: int) -> nat
    decreases k,
{
    if k <= 0 {
        0
    } else {
        (spec_routed_upto(b, exprs, n, k - 1) + spec_split_rows(b, exprs, n, k - 1).len()) as nat
    }
}

/// The total row count a stream of batches routes across all `n`
/// partitions.
pub open spec fn spec_stream_routed(batches: Seq<Batch>, exprs: Seq<ColumnExpr>, n: int) -> nat
    decreases batches.len(),
{
    if batches.len() == 0 {
        0
    } else {
        (spec_stream_routed(batches.drop_last(), exprs, n) + spec_routed_upto(
            batches.last(),
            exprs,
            n,
            n,
        )) as nat
    }
}

/// The length of the index lists of the partitions below `k`.
spec fn spec_plists_len_upto(hashes: Seq<u64>, n: int, k: int) -> nat
    decreases k,
{
    if k <= 0 {
        0
    } else {
        (spec_plists_len_upto(hashes, n, k - 1) + spec_partition_list(hashes, n, k - 1).len()) as nat
    }
}

/// Appending one hash lengthens exactly one partition's index list.
proof fn lemma_plists_len_upto_step(hashes: Seq<u64>, n: int, k: int)
    requires
        n >= 1,
        hashes.len() > 0,
        0 <= k <= n,
    ensures
        spec_plists_len_upto(hashes, n, k) == spec_plists_len_upto(hashes.drop_last(), n, k) + (
        if spec_partition_of(hashes.last(), n) < k {
            1nat
        } else {
            0nat
        }),
    decreases k,
{
    if k > 0 {
        lemma_plists_len_upto_step(hashes, n, k - 1);
    }
}

/// Every row of a batch is routed to exactly one partition: the routed
/// row counts over all partitions add up to the batch's row count.
pub proof fn lemma_routed_equals_rows(b: Batch, exprs: Seq<ColumnExpr>, n: int)
    requires
        n >= 1,
    ensures
        spec_routed_upto(b, exprs, n, n) == b.spec_num_rows(),
{
    let hashes = spec_batch_hashes(b, exprs);
    lemma_plists_len_total(hashes, n);
    lemma_routed_upto_is_plists_len(b, exprs, n, n);
}

/// The index-list lengths over all partitions add up to the hash count.
proof fn lemma_plists_len_total(hashes: Seq<u64>, n: int)
    requires
        n >= 1,
    ensures
        spec_plists_len_upto(hashes, n, n) == hashes.len(),
    decreases hashes.len(),
{
    if hashes.len() == 0 {
        lemma_plists_len_upto_empty(hashes, n, n);
    } else {
        lemma_plists_len_total(hashes.drop_last(), n);
        lemma_plists_len_upto_step(hashes, n, n);
        assert(spec_partition_of(hashes.last(), n) < n) by {
            assert(0 <= (hashes.last() as int) % n < n) by {
                vstd::arithmetic::div_mod::lemma_mod_bound(hashes.last() as int, n);
            }
        }
    }
}

/// With no hashes, every index list is empty.
proof fn lemma_plists_len_upto_empty(hashes: Seq<u64>, n: int, k: int)
    requires
        hashes.len() == 0,
        k <= n,
    ensures
        spec_plists_len_upto(hashes, n, k) == 0,
    decreases k,
{
    if k > 0 {
        lemma_plists_len_upto_empty(hashes, n, k - 1);
    }
}

/// The routed row counts are the index-list lengths.
proof fn lemma_routed_upto_is_plists_len(b: Batch, exprs: Seq<ColumnExpr>, n: int, k: int)
    ensures
        spec_routed_upto(b, exprs, n, k) == spec_plists_len_upto(spec_batch_hashes(b, exprs), n, k),
    decreases k,
{
    if k > 0 {
        lemma_routed_upto_is_plists_len(b, exprs, n, k - 1);
    }
}

/// For any two batches holding an equal row, the row lands in the same
/// output partition: the assignment is a function of the row's cells, the
/// key expressions and the partition count alone.
pub proof fn lemma_route_deterministic(
    b1: Batch,
    i1: int,
    b2: Batch,
    i2: int,
    exprs: Seq<ColumnExpr>,
    n: int,
)
    requires
        n >= 1,
        b1.row(i1) == b2.row(i2),
    ensures
        spec_row_partition(b1.row(i1), exprs, n) == spec_row_partition(b2.row(i2), exprs, n),
{
}

} // verus!
