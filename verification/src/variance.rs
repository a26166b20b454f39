//! The streaming variance accumulator.
//!
//! Sample or population variance over a streamed column, computed with
//! Welford's numerically stable online algorithm and merged pairwise across
//! partial states with the Chan/Youngs–Cramer formula, so that partial
//! aggregates computed on different partitions combine into the whole.
//! Double-precision values are carried as IEEE 754 bit patterns; a null
//! input cell is skipped.
use vstd::prelude::*;
use vstd::string::StringExecFns;

use crate::error::EngineError;
use crate::expr::ColumnExpr;
use crate::float_ops::{
    add_bits, div_bits, f64_of_u64, ieee_add, ieee_div, ieee_from_u64, ieee_mul, ieee_sub,
    mul_bits, sub_bits,
};
use crate::schema::{DataType, Field};

verus! {

/// Whether an accumulator computes the sample or the population statistic.
#[derive(Clone, Copy, Debug, PartialEq, Eq, Structural)]
pub enum StatsType {
    Sample,
    Population,
}

/// The data types over which variance is defined.
pub open spec fn spec_is_variance_supported(dt: DataType) -> bool {
    match dt {
        DataType::Int8 => true,
        DataType::Int16 => true,
        DataType::Int32 => true,
        DataType::Int64 => true,
        DataType::UInt8 => true,
        DataType::UInt16 => true,
        DataType::UInt32 => true,
        DataType::UInt64 => true,
        DataType::Float32 => true,
        DataType::Float64 => true,
        _ => false,
    }
}

/// Whether variance accepts a column of the given type.
pub fn is_variance_support_arg_type(arg_type: &DataType) -> (r: bool)
    ensures
        r == spec_is_variance_supported(*arg_type),
{
    match arg_type {
        DataType::Int8 => true,
        DataType::Int16 => true,
        DataType::Int32 => true,
        DataType::Int64 => true,
        DataType::UInt8 => true,
        DataType::UInt16 => true,
        DataType::UInt32 => true,
        DataType::UInt64 => true,
        DataType::Float32 => true,
        DataType::Float64 => true,
        _ => false,
    }
}

/// The return type of variance: a double for every numeric input type, and
/// a plan error naming the offending type for any other.
pub fn variance_return_type(arg_type: &DataType) -> (r: Result<DataType, EngineError>)
    ensures
        r is Ok <==> spec_is_variance_supported(*arg_type),
        r matches Ok(t) ==> t == DataType::Float64,
        r matches Err(e) ==> e is Plan && e.spec_message()@ == "VARIANCE does not support "@
            + crate::schema::spec_type_label(*arg_type),
{
    if is_variance_support_arg_type(arg_type) {
        Ok(DataType::Float64)
    } else {
        let mut msg = String::from_str("VARIANCE does not support ");
        let label = arg_type.type_label();
        msg.append(label.as_str());
        Err(EngineError::Plan(msg))
    }
}

/// The state name of an aggregate expression's state field:
/// `<name>[<state_name>]`.
pub fn format_state_name(name: &str, state_name: &str) -> (r: String)
    ensures
        r@ == name@ + "["@ + state_name@ + "]"@,
{
    let mut s = String::from_str(name);
    s.append("[");
    s.append(state_name);
    s.append("]");
    s
}

/// One Welford update of the state `(count, mean, m2)` with the value `x`:
///
/// ```text
/// count' = count + 1
/// d1     = x - mean
/// mean'  = d1 / count' + mean
/// d2     = x - mean'
/// m2'    = m2 + d1 * d2
/// ```
pub open spec fn spec_welford_update(s: (u64, u64, u64), x: u64) -> (u64, u64, u64) {
    let new_count = (s.0 + 1) as u64;
    let delta1 = sub_bits(x, s.1);
    let new_mean = add_bits(div_bits(delta1, f64_of_u64(new_count)), s.1);
    let delta2 = sub_bits(x, new_mean);
    let new_m2 = add_bits(s.2, mul_bits(delta1, delta2));
    (new_count, new_mean, new_m2)
}

/// A Welford update with an optional value: a null is skipped.
pub open spec fn spec_welford_update_opt(s: (u64, u64, u64), v: Option<u64>) -> (u64, u64, u64) {
    match v {
        Option::None => s,
        Option::Some(x) => spec_welford_update(s, x),
    }
}

/// The state after Welford updates with every value of a column, in order.
pub open spec fn spec_welford_fold(s: (u64, u64, u64), vals: Seq<Option<u64>>) -> (u64, u64, u64)
    decreases vals.len(),
{
    if vals.len() == 0 {
        s
    } else {
        spec_welford_update_opt(spec_welford_fold(s, vals.drop_last()), vals.last())
    }
}

/// How many values of a column are present (non-null).
pub open spec fn non_null_count(vals: Seq<Option<u64>>) -> nat
    decreases vals.len(),
{
    if vals.len() == 0 {
        0
    } else {
        non_null_count(vals.drop_last()) + (if vals.last() is Some {
            1nat
        } else {
            0nat
        })
    }
}

/// A fold of Welford updates grows the count by exactly the number of
/// present values, as long as that does not overflow.
pub proof fn lemma_welford_fold_count(s: (u64, u64, u64), vals: Seq<Option<u64>>)
    requires
        s.0 + non_null_count(vals) <= u64::MAX,
    ensures
        spec_welford_fold(s, vals).0 == s.0 + non_null_count(vals),
    decreases vals.len(),
{
    if vals.len() > 0 {
        lemma_welford_fold_count(s, vals.drop_last());
    }
}

/// A prefix of a column has at most as many present values as the column.
pub proof fn lemma_non_null_count_take_le(vals: Seq<Option<u64>>, i: int)
    requires
        0 <= i <= vals.len(),
    ensures
        non_null_count(vals.take(i)) <= non_null_count(vals),
    decreases vals.len() - i,
{
    if i == vals.len() {
        assert(vals.take(i) =~= vals);
    } else {
        assert(vals.take(i + 1).drop_last() =~= vals.take(i));
        lemma_non_null_count_take_le(vals, i + 1);
    }
}

/// One pairwise merge of two states `(count, mean, m2)`:
///
/// ```text
/// count' = count1 + count2
/// mean'  = mean1 * count1 / count' + mean2 * count2 / count'
/// d      = mean1 - mean2
/// m2'    = (m21 + m22) + d * d * count1 * count2 / count'
/// ```
///
/// A state with a zero count on the right is skipped; an empty accumulator
/// on the left absorbs the other state verbatim.
pub open spec fn spec_merge(s: (u64, u64, u64), o: (u64, u64, u64)) -> (u64, u64, u64) {
    if o.0 == 0 {
        s
    } else if s.0 == 0 {
        o
    } else {
        let new_count = (s.0 + o.0) as u64;
        let ncf = f64_of_u64(new_count);
        let new_mean = add_bits(
            div_bits(mul_bits(s.1, f64_of_u64(s.0)), ncf),
            div_bits(mul_bits(o.1, f64_of_u64(o.0)), ncf),
        );
        let delta = sub_bits(s.1, o.1);
        let new_m2 = add_bits(
            add_bits(s.2, o.2),
            div_bits(
                mul_bits(mul_bits(mul_bits(delta, delta), f64_of_u64(s.0)), f64_of_u64(o.0)),
                ncf,
            ),
        );
        (new_count, new_mean, new_m2)
    }
}

/// The state after merging a list of partial states, in order.
pub open spec fn spec_merge_fold(s: (u64, u64, u64), states: Seq<(u64, u64, u64)>) -> (
    u64,
    u64,
    u64,
)
    decreases states.len(),
{
    if states.len() == 0 {
        s
    } else {
        spec_merge(spec_merge_fold(s, states.drop_last()), states.last())
    }
}

/// The sum of the counts of a list of partial states.
pub open spec fn sum_counts(states: Seq<(u64, u64, u64)>) -> nat
    decreases states.len(),
{
    if states.len() == 0 {
        0
    } else {
        (sum_counts(states.drop_last()) + states.last().0) as nat
    }
}

/// A fold of merges grows the count by exactly the sum of the merged
/// counts, as long as that does not overflow.
pub proof fn lemma_merge_fold_count(s: (u64, u64, u64), states: Seq<(u64, u64, u64)>)
    requires
        s.0 + sum_counts(states) <= u64::MAX,
    ensures
        spec_merge_fold(s, states).0 == s.0 + sum_counts(states),
    decreases states.len(),
{
    if states.len() > 0 {
        lemma_merge_fold_count(s, states.drop_last());
    }
}

/// A prefix of a state list has at most the count sum of the whole list.
pub proof fn lemma_sum_counts_take_le(states: Seq<(u64, u64, u64)>, i: int)
    requires
        0 <= i <= states.len(),
    ensures
        sum_counts(states.take(i)) <= sum_counts(states),
    decreases states.len() - i,
{
    if i == states.len() {
        assert(states.take(i) =~= states);
    } else {
        assert(states.take(i + 1).drop_last() =~= states.take(i));
        lemma_sum_counts_take_le(states, i + 1);
    }
}

/// An accumulator of the online moments `(count, mean, m2)`, where `mean`
/// and `m2` are IEEE 754 bit patterns of doubles.
#[derive(Debug)]
pub struct VarianceAccumulator {
    pub m2: u64,
    pub mean: u64,
    pub count: u64,
    pub stats_type: StatsType,
}

impl VarianceAccumulator {
    /// The accumulator's state triple `(count, mean, m2)`.
    pub open spec fn spec_state(self) -> (u64, u64, u64) {
        (self.count, self.mean, self.m2)
    }

    /// The divisor of the final statistic: the count for the population
    /// kind, the count less one for the sample kind.
    pub open spec fn spec_divisor(self) -> u64 {
        match self.stats_type {
            StatsType::Population => self.count,
            StatsType::Sample => if self.count > 0 {
                (self.count - 1) as u64
            } else {
                self.count
            },
        }
    }

    /// Creates an empty accumulator of the given kind.
    pub fn try_new(s_type: StatsType) -> (r: Result<VarianceAccumulator, EngineError>)
        ensures
            r matches Ok(a) && a.count == 0 && a.mean == 0 && a.m2 == 0 && a.stats_type == s_type,
    {
        Ok(VarianceAccumulator { m2: 0, mean: 0, count: 0, stats_type: s_type })
    }

    pub fn get_count(&self) -> (r: u64)
        ensures
            r == self.count,
    {
        self.count
    }

    /// The bit pattern of the running mean.
    pub fn get_mean(&self) -> (r: u64)
        ensures
            r == self.mean,
    {
        self.mean
    }

    /// The bit pattern of the running sum of squared deviations.
    pub fn get_m2(&self) -> (r: u64)
        ensures
            r == self.m2,
    {
        self.m2
    }

    /// The serialized state: `(count, mean, m2)`.
    pub fn state(&self) -> (r: (u64, u64, u64))
        ensures
            r == self.spec_state(),
    {
        (self.count, self.mean, self.m2)
    }

    /// Updates the state with one optional value; a null is skipped.
    pub fn update(&mut self, value: Option<u64>)
        requires
            value is Some ==> old(self).count < u64::MAX,
        ensures
            final(self).spec_state() == spec_welford_update_opt(old(self).spec_state(), value),
            final(self).stats_type == old(self).stats_type,
    {
        match value {
            None => {},
            Some(x) => {
                let new_count = self.count + 1;
                let delta1 = ieee_sub(x, self.mean);
                let new_mean = ieee_add(ieee_div(delta1, ieee_from_u64(new_count)), self.mean);
                let delta2 = ieee_sub(x, new_mean);
                let new_m2 = ieee_add(self.m2, ieee_mul(delta1, delta2));
                self.count = new_count;
                self.mean = new_mean;
                self.m2 = new_m2;
            },
        }
    }

    /// Updates the state with every value of a column, in order; nulls are
    /// skipped.
    pub fn update_batch(&mut self, values: &Vec<Option<u64>>)
        requires
            old(self).count + non_null_count(values@) <= u64::MAX,
        ensures
            final(self).spec_state() == spec_welford_fold(old(self).spec_state(), values@),
            final(self).stats_type == old(self).stats_type,
    {
        let ghost all = values@;
        let ghost start = self.spec_state();
        let mut i: usize = 0;
        while i < values.len()
            invariant
                i <= all.len(),
                values@ == all,
                start.0 + non_null_count(all) <= u64::MAX,
                self.spec_state() == spec_welford_fold(start, all.take(i as int)),
                self.stats_type == old(self).stats_type,
                start == old(self).spec_state(),
            decreases all.len() - i,
        {
            proof {
                assert(all.take(i + 1).drop_last() =~= all.take(i as int));
                assert(all.take(i + 1).last() == all[i as int]);
                lemma_welford_fold_count_partial(start, all, i as int);
                lemma_non_null_count_take_le(all, i + 1);
            }
            let v = match &values[i] {
                None => None,
                Some(x) => Some(*x),
            };
            self.update(v);
            i += 1;
        }
        proof {
            assert(all.take(all.len() as int) =~= all);
        }
    }

    /// Merges one partial state `(count, mean, m2)` into the accumulator.
    /// A zero-count state leaves the accumulator unchanged; an empty
    /// accumulator absorbs the state verbatim.
    pub fn merge(&mut self, count: u64, mean: u64, m2: u64)
        requires
            old(self).count + count <= u64::MAX,
        ensures
            final(self).spec_state() == spec_merge(old(self).spec_state(), (count, mean, m2)),
            final(self).stats_type == old(self).stats_type,
    {
        if count == 0 {
            return ;
        }
        if self.count == 0 {
            self.count = count;
            self.mean = mean;
            self.m2 = m2;
            return ;
        }
        let new_count = self.count + count;
        let ncf = ieee_from_u64(new_count);
        let new_mean = ieee_add(
            ieee_div(ieee_mul(self.mean, ieee_from_u64(self.count)), ncf),
            ieee_div(ieee_mul(mean, ieee_from_u64(count)), ncf),
        );
        let delta = ieee_sub(self.mean, mean);
        let new_m2 = ieee_add(
            ieee_add(self.m2, m2),
            ieee_div(
                ieee_mul(
                    ieee_mul(ieee_mul(delta, delta), ieee_from_u64(self.count)),
                    ieee_from_u64(count),
                ),
                ncf,
            ),
        );
        self.count = new_count;
        self.mean = new_mean;
        self.m2 = new_m2;
    }

    /// Merges a list of partial states, in order: `counts[i]`, `means[i]`
    /// and `m2s[i]` form one state.
    pub fn merge_batch(&mut self, counts: &Vec<u64>, means: &Vec<u64>, m2s: &Vec<u64>)
        requires
            counts@.len() == means@.len(),
            counts@.len() == m2s@.len(),
            old(self).count + sum_counts(spec_zip_states(counts@, means@, m2s@)) <= u64::MAX,
        ensures
            final(self).spec_state() == spec_merge_fold(
                old(self).spec_state(),
                spec_zip_states(counts@, means@, m2s@),
            ),
            final(self).stats_type == old(self).stats_type,
    {
        let ghost states = spec_zip_states(counts@, means@, m2s@);
        let ghost start = self.spec_state();
        let mut i: usize = 0;
        while i < counts.len()
            invariant
                i <= states.len(),
                states == spec_zip_states(counts@, means@, m2s@),
                states.len() == counts@.len(),
                counts@.len() == means@.len(),
                counts@.len() == m2s@.len(),
                start.0 + sum_counts(states) <= u64::MAX,
                self.spec_state() == spec_merge_fold(start, states.take(i as int)),
                self.stats_type == old(self).stats_type,
                start == old(self).spec_state(),
            decreases states.len() - i,
        {
            proof {
                assert(states.take(i + 1).drop_last() =~= states.take(i as int));
                assert(states.take(i + 1).last() == states[i as int]);
                lemma_merge_fold_count_partial(start, states, i as int);
                lemma_sum_counts_take_le(states, i + 1);
            }
            self.merge(counts[i], means[i], m2s[i]);
            i += 1;
        }
        proof {
            assert(states.take(states.len() as int) =~= states);
        }
    }

    /// The final statistic: `m2 / divisor` as a double's bit pattern. If
    /// the effective divisor is not above one, an internal error asks for at
    /// least two values.
    pub fn evaluate(&self) -> (r: Result<Option<u64>, EngineError>)
        ensures
            r is Ok <==> self.spec_divisor() > 1,
            r matches Ok(v) ==> v == Some(div_bits(self.m2, f64_of_u64(self.spec_divisor()))),
            r matches Err(e) ==> e is Internal && e.spec_message()@
                == "At least two values are needed to calculate variance"@,
    {
        let count = match self.stats_type {
            StatsType::Population => self.count,
            StatsType::Sample => {
                if self.count > 0 {
                    self.count - 1
                } else {
                    self.count
                }
            },
        };
        if count <= 1 {
            return Err(
                EngineError::Internal(
                    String::from_str("At least two values are needed to calculate variance"),
                ),
            );
        }
        if self.count == 0 {
            Ok(None)
        } else {
            Ok(Some(ieee_div(self.m2, ieee_from_u64(count))))
        }
    }
}

/// The empty state is a unit of the merge, exactly: merging it in either
/// direction leaves the other state as it is. This is the part of the
/// merge's commutativity that holds without any floating-point tolerance.
pub proof fn lemma_merge_empty_unit(s: (u64, u64, u64))
    ensures
        spec_merge(s, (0u64, 0u64, 0u64)) == s,
        s.0 > 0 ==> spec_merge((0u64, 0u64, 0u64), s) == s,
{
}

/// The count component of the merge is exactly commutative and associative:
/// the merged count is the sum of the merged states' counts, regardless of
/// order or grouping. (The mean and the squared deviations commute only up
/// to floating-point rounding.)
pub proof fn lemma_merge_count_commutes(
    a: (u64, u64, u64),
    b: (u64, u64, u64),
    c: (u64, u64, u64),
)
    requires
        a.0 + b.0 + c.0 <= u64::MAX,
    ensures
        spec_merge(a, b).0 == a.0 + b.0,
        spec_merge(a, b).0 == spec_merge(b, a).0,
        spec_merge(spec_merge(a, b), c).0 == spec_merge(a, spec_merge(b, c)).0,
{
}

/// The state list carried by three parallel columns of counts, means and
/// squared deviations.
pub open spec fn spec_zip_states(counts: Seq<u64>, means: Seq<u64>, m2s: Seq<u64>) -> Seq<
    (u64, u64, u64),
> {
    Seq::new(counts.len(), |i: int| (counts[i], means[i], m2s[i]))
}

/// The count after folding a prefix stays within the overall bound.
proof fn lemma_welford_fold_count_partial(s: (u64, u64, u64), vals: Seq<Option<u64>>, i: int)
    requires
        0 <= i <= vals.len(),
        s.0 + non_null_count(vals) <= u64::MAX,
    ensures
        spec_welford_fold(s, vals.take(i)).0 == s.0 + non_null_count(vals.take(i)),
{
    lemma_non_null_count_take_le(vals, i);
    lemma_welford_fold_count(s, vals.take(i));
}

/// The count after merging a prefix stays within the overall bound.
proof fn lemma_merge_fold_count_partial(s: (u64, u64, u64), states: Seq<(u64, u64, u64)>, i: int)
    requires
        0 <= i <= states.len(),
        s.0 + sum_counts(states) <= u64::MAX,
    ensures
        spec_merge_fold(s, states.take(i)).0 == s.0 + sum_counts(states.take(i)),
{
    lemma_sum_counts_take_le(states, i);
    lemma_merge_fold_count(s, states.take(i));
}

/// The VAR / VAR_SAMP aggregate expression: sample variance of a column.
#[derive(Debug)]
pub struct Variance {
    pub name: String,
    pub expr: ColumnExpr,
}

/// The VAR_POP aggregate expression: population variance of a column.
#[derive(Debug)]
pub struct VariancePop {
    pub name: String,
    pub expr: ColumnExpr,
}

impl Variance {
    /// Creates a new VARIANCE aggregate expression. The result type of
    /// variance is always a double.
    pub fn new(expr: ColumnExpr, name: String, data_type: DataType) -> (r: Variance)
        requires
            data_type == DataType::Float64,
        ensures
            r.name == name,
            r.expr == expr,
    {
        Variance { name, expr }
    }

    /// The output field: a nullable double under the expression's name.
    pub fn field(&self) -> (r: Result<Field, EngineError>)
        ensures
            r matches Ok(f) && f.name == self.name && f.data_type == DataType::Float64
                && f.nullable,
    {
        Ok(Field { name: self.name.clone(), data_type: DataType::Float64, nullable: true })
    }

    /// A fresh sample-variance accumulator.
    pub fn create_accumulator(&self) -> (r: Result<VarianceAccumulator, EngineError>)
        ensures
            r matches Ok(a) && a.count == 0 && a.mean == 0 && a.m2 == 0 && a.stats_type
                == StatsType::Sample,
    {
        VarianceAccumulator::try_new(StatsType::Sample)
    }

    /// The state fields `<name>[count]`, `<name>[mean]` and `<name>[m2]`.
    pub fn state_fields(&self) -> (r: Result<Vec<Field>, EngineError>)
        ensures
            r matches Ok(fs) && fs@.len() == 3 && {
                &&& fs@[0].name@ == self.name@ + "["@ + "count"@ + "]"@
                &&& fs@[0].data_type == DataType::UInt64
                &&& fs@[1].name@ == self.name@ + "["@ + "mean"@ + "]"@
                &&& fs@[1].data_type == DataType::Float64
                &&& fs@[2].name@ == self.name@ + "["@ + "m2"@ + "]"@
                &&& fs@[2].data_type == DataType::Float64
                &&& fs@[0].nullable && fs@[1].nullable && fs@[2].nullable
            },
    {
        Ok(variance_state_fields(self.name.as_str()))
    }

    /// The expressions the aggregate consumes.
    pub fn expressions(&self) -> (r: Vec<ColumnExpr>)
        ensures
            r@.len() == 1,
            r@[0] == self.expr,
    {
        let mut v: Vec<ColumnExpr> = Vec::new();
        v.push(self.expr.clone());
        v
    }

    /// The expression's user-visible name.
    pub fn name(&self) -> (r: &str)
        ensures
            r@ == self.name@,
    {
        self.name.as_str()
    }
}

impl VariancePop {
    /// Creates a new VAR_POP aggregate expression. The result type of
    /// variance is always a double.
    pub fn new(expr: ColumnExpr, name: String, data_type: DataType) -> (r: VariancePop)
        requires
            data_type == DataType::Float64,
        ensures
            r.name == name,
            r.expr == expr,
    {
        VariancePop { name, expr }
    }

    /// The output field: a nullable double under the expression's name.
    pub fn field(&self) -> (r: Result<Field, EngineError>)
        ensures
            r matches Ok(f) && f.name == self.name && f.data_type == DataType::Float64
                && f.nullable,
    {
        Ok(Field { name: self.name.clone(), data_type: DataType::Float64, nullable: true })
    }

    /// A fresh population-variance accumulator.
    pub fn create_accumulator(&self) -> (r: Result<VarianceAccumulator, EngineError>)
        ensures
            r matches Ok(a) && a.count == 0 && a.mean == 0 && a.m2 == 0 && a.stats_type
                == StatsType::Population,
    {
        VarianceAccumulator::try_new(StatsType::Population)
    }

    /// The state fields `<name>[count]`, `<name>[mean]` and `<name>[m2]`.
    pub fn state_fields(&self) -> (r: Result<Vec<Field>, EngineError>)
        ensures
            r matches Ok(fs) && fs@.len() == 3 && {
                &&& fs@[0].name@ == self.name@ + "["@ + "count"@ + "]"@
                &&& fs@[0].data_type == DataType::UInt64
                &&& fs@[1].name@ == self.name@ + "["@ + "mean"@ + "]"@
                &&& fs@[1].data_type == DataType::Float64
                &&& fs@[2].name@ == self.name@ + "["@ + "m2"@ + "]"@
                &&& fs@[2].data_type == DataType::Float64
                &&& fs@[0].nullable && fs@[1].nullable && fs@[2].nullable
            },
    {
        Ok(variance_state_fields(self.name.as_str()))
    }

    /// The expressions the aggregate consumes.
    pub fn expressions(&self) -> (r: Vec<ColumnExpr>)
        ensures
            r@.len() == 1,
            r@[0] == self.expr,
    {
        let mut v: Vec<ColumnExpr> = Vec::new();
        v.push(self.expr.clone());
        v
    }

    /// The expression's user-visible name.
    pub fn name(&self) -> (r: &str)
        ensures
            r@ == self.name@,
    {
        self.name.as_str()
    }
}

/// The three state fields of a variance accumulator, prefixed with the
/// expression's name.
fn variance_state_fields(name: &str) -> (r: Vec<Field>)
    ensures
        r@.len() == 3,
        r@[0].name@ == name@ + "["@ + "count"@ + "]"@,
        r@[0].data_type == DataType::UInt64,
        r@[1].name@ == name@ + "["@ + "mean"@ + "]"@,
        r@[1].data_type == DataType::Float64,
        r@[2].name@ == name@ + "["@ + "m2"@ + "]"@,
        r@[2].data_type == DataType::Float64,
        r@[0].nullable && r@[1].nullable && r@[2].nullable,
{
    let mut fields: Vec<Field> = Vec::new();
    fields.push(
        Field { name: format_state_name(name, "count"), data_type: DataType::UInt64, nullable: true },
    );
    fields.push(
        Field { name: format_state_name(name, "mean"), data_type: DataType::Float64, nullable: true },
    );
    fields.push(
        Field { name: format_state_name(name, "m2"), data_type: DataType::Float64, nullable: true },
    );
    fields
}

} // verus!
