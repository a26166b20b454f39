use shuffle_writer::expr::ColumnExpr;
use shuffle_writer::schema::DataType;
use shuffle_writer::variance::{
    format_state_name, is_variance_support_arg_type, variance_return_type, StatsType, Variance,
    VarianceAccumulator, VariancePop,
};

fn bits_of(vals: &[f64]) -> Vec<Option<u64>> {
    vals.iter().map(|x| Some(x.to_bits())).collect()
}

fn population_of(vals: &[f64]) -> f64 {
    let mut acc = VarianceAccumulator::try_new(StatsType::Population).unwrap();
    acc.update_batch(&bits_of(vals));
    f64::from_bits(acc.evaluate().unwrap().unwrap())
}

fn sample_of(vals: &[f64]) -> f64 {
    let mut acc = VarianceAccumulator::try_new(StatsType::Sample).unwrap();
    acc.update_batch(&bits_of(vals));
    f64::from_bits(acc.evaluate().unwrap().unwrap())
}

#[test]
fn variance_f64_1() {
    assert_eq!(population_of(&[1_f64, 2_f64]), 0.25_f64);
}

#[test]
fn variance_f64_2() {
    assert_eq!(population_of(&[1_f64, 2_f64, 3_f64, 4_f64, 5_f64]), 2_f64);
}

#[test]
fn variance_f64_3() {
    assert_eq!(sample_of(&[1_f64, 2_f64, 3_f64, 4_f64, 5_f64]), 2.5_f64);
}

#[test]
fn variance_f64_4() {
    assert_eq!(sample_of(&[1.1_f64, 2_f64, 3_f64]), 0.9033333333333333_f64);
}

#[test]
fn variance_i32() {
    let vals: Vec<f64> = vec![1_i32, 2, 3, 4, 5].into_iter().map(|v| v as f64).collect();
    assert_eq!(population_of(&vals), 2_f64);
}

#[test]
fn variance_u32() {
    let vals: Vec<f64> = vec![1_u32, 2_u32, 3_u32, 4_u32, 5_u32]
        .into_iter()
        .map(|v| v as f64)
        .collect();
    assert_eq!(population_of(&vals), 2.0_f64);
}

#[test]
fn variance_f32() {
    let vals: Vec<f64> = vec![1_f32, 2_f32, 3_f32, 4_f32, 5_f32]
        .into_iter()
        .map(|v| v as f64)
        .collect();
    assert_eq!(population_of(&vals), 2_f64);
}

#[test]
fn test_variance_return_data_type() {
    let data_type = DataType::Float64;
    let result_type = variance_return_type(&data_type).unwrap();
    assert_eq!(DataType::Float64, result_type);

    let data_type = DataType::Decimal(36, 10);
    assert!(variance_return_type(&data_type).is_err());
}

#[test]
fn test_variance_1_input() {
    let agg = Variance::new(
        ColumnExpr::new("a".to_string(), 0),
        "bla".to_string(),
        DataType::Float64,
    );
    let mut accum = agg.create_accumulator().unwrap();
    accum.update_batch(&bits_of(&[1_f64]));
    let actual = accum.evaluate();
    assert!(actual.is_err());
}

#[test]
fn variance_i32_with_nulls() {
    let vals: Vec<Option<u64>> = vec![Some(1_i32), None, Some(3), Some(4), Some(5)]
        .into_iter()
        .map(|v| v.map(|x| (x as f64).to_bits()))
        .collect();
    let mut acc = VarianceAccumulator::try_new(StatsType::Population).unwrap();
    acc.update_batch(&vals);
    assert_eq!(f64::from_bits(acc.evaluate().unwrap().unwrap()), 2.1875_f64);
}

#[test]
fn variance_i32_all_nulls() {
    let agg = Variance::new(
        ColumnExpr::new("a".to_string(), 0),
        "bla".to_string(),
        DataType::Float64,
    );
    let mut accum = agg.create_accumulator().unwrap();
    accum.update_batch(&vec![None, None]);
    let actual = accum.evaluate();
    assert!(actual.is_err());
}

#[test]
fn variance_supported_arg_types() {
    assert!(is_variance_support_arg_type(&DataType::Int8));
    assert!(is_variance_support_arg_type(&DataType::UInt64));
    assert!(is_variance_support_arg_type(&DataType::Float32));
    assert!(is_variance_support_arg_type(&DataType::Float64));
    assert!(!is_variance_support_arg_type(&DataType::Utf8));
    assert!(!is_variance_support_arg_type(&DataType::Decimal(10, 2)));
}

#[test]
fn variance_error_names_two_values() {
    let acc = VarianceAccumulator::try_new(StatsType::Sample).unwrap();
    let err = acc.evaluate().unwrap_err();
    assert!(err.is_internal());
    assert_eq!(
        err.message().as_str(),
        "At least two values are needed to calculate variance"
    );
}

#[test]
fn variance_return_type_error_is_plan() {
    let err = variance_return_type(&DataType::Utf8).unwrap_err();
    assert!(err.is_plan());
    assert_eq!(err.message().as_str(), "VARIANCE does not support Utf8");

    let err = variance_return_type(&DataType::Decimal(36, 10)).unwrap_err();
    assert_eq!(
        err.message().as_str(),
        "VARIANCE does not support Decimal(36, 10)"
    );
}

#[test]
fn variance_update_single_values() {
    let mut acc = VarianceAccumulator::try_new(StatsType::Population).unwrap();
    for v in [1_f64, 2_f64, 3_f64, 4_f64, 5_f64] {
        acc.update(Some(v.to_bits()));
    }
    acc.update(None);
    assert_eq!(acc.get_count(), 5);
    assert_eq!(f64::from_bits(acc.evaluate().unwrap().unwrap()), 2.0_f64);
}

#[test]
fn variance_merge_zero_count_is_skipped() {
    let mut acc = VarianceAccumulator::try_new(StatsType::Population).unwrap();
    acc.update_batch(&bits_of(&[1_f64, 2_f64]));
    let (count, mean, m2) = acc.state();
    acc.merge(0, 123, 456);
    assert_eq!(acc.state(), (count, mean, m2));
}

#[test]
fn variance_merge_into_empty_absorbs() {
    let mut other = VarianceAccumulator::try_new(StatsType::Population).unwrap();
    other.update_batch(&bits_of(&[1_f64, 2_f64, 3_f64]));
    let (count, mean, m2) = other.state();
    let mut acc = VarianceAccumulator::try_new(StatsType::Population).unwrap();
    acc.merge(count, mean, m2);
    assert_eq!(acc.state(), (count, mean, m2));
}

#[test]
fn variance_merge_split_equals_whole() {
    let mut left = VarianceAccumulator::try_new(StatsType::Population).unwrap();
    left.update_batch(&bits_of(&[1., 2., 3., 4., 5.]));
    let mut right = VarianceAccumulator::try_new(StatsType::Population).unwrap();
    right.update_batch(&bits_of(&[6., 7., 8., 9., 10.]));
    let (count, mean, m2) = right.state();
    left.merge(count, mean, m2);
    let merged = f64::from_bits(left.evaluate().unwrap().unwrap());

    let whole = population_of(&[1., 2., 3., 4., 5., 6., 7., 8., 9., 10.]);
    assert!((merged - whole).abs() < 1e-12);
}

#[test]
fn variance_merge_batch_matches_repeated_merge() {
    let mut a = VarianceAccumulator::try_new(StatsType::Population).unwrap();
    a.update_batch(&bits_of(&[1., 2.]));
    let mut b = VarianceAccumulator::try_new(StatsType::Population).unwrap();
    b.update_batch(&bits_of(&[3., 4.]));
    let mut c = VarianceAccumulator::try_new(StatsType::Population).unwrap();
    c.update_batch(&bits_of(&[5., 6., 7.]));

    let (c1, m1, s1) = b.state();
    let (c2, m2, s2) = c.state();

    let mut via_batch = VarianceAccumulator::try_new(StatsType::Population).unwrap();
    via_batch.update_batch(&bits_of(&[1., 2.]));
    via_batch.merge_batch(&vec![c1, c2], &vec![m1, m2], &vec![s1, s2]);

    a.merge(c1, m1, s1);
    a.merge(c2, m2, s2);
    assert_eq!(a.state(), via_batch.state());
}

#[test]
fn variance_merge_is_associative_and_commutative_approximately() {
    let parts: [&[f64]; 3] = [&[1., 2., 3.], &[10., 20.], &[0.5, 0.25, 7.5, 9.]];
    let mut states = Vec::new();
    for p in parts {
        let mut acc = VarianceAccumulator::try_new(StatsType::Population).unwrap();
        acc.update_batch(&bits_of(p));
        states.push(acc.state());
    }

    // merge(merge(A, B), C)
    let mut left = VarianceAccumulator::try_new(StatsType::Population).unwrap();
    left.merge(states[0].0, states[0].1, states[0].2);
    left.merge(states[1].0, states[1].1, states[1].2);
    left.merge(states[2].0, states[2].1, states[2].2);

    // merge(A, merge(B, C))
    let mut bc = VarianceAccumulator::try_new(StatsType::Population).unwrap();
    bc.merge(states[1].0, states[1].1, states[1].2);
    bc.merge(states[2].0, states[2].1, states[2].2);
    let mut right = VarianceAccumulator::try_new(StatsType::Population).unwrap();
    right.merge(states[0].0, states[0].1, states[0].2);
    let (cb, mb, sb) = bc.state();
    right.merge(cb, mb, sb);

    // merge(B, A) against merge(A, B)
    let mut ab = VarianceAccumulator::try_new(StatsType::Population).unwrap();
    ab.merge(states[0].0, states[0].1, states[0].2);
    ab.merge(states[1].0, states[1].1, states[1].2);
    let mut ba = VarianceAccumulator::try_new(StatsType::Population).unwrap();
    ba.merge(states[1].0, states[1].1, states[1].2);
    ba.merge(states[0].0, states[0].1, states[0].2);

    let vl = f64::from_bits(left.evaluate().unwrap().unwrap());
    let vr = f64::from_bits(right.evaluate().unwrap().unwrap());
    assert!((vl - vr).abs() < 1e-9);
    let vab = f64::from_bits(ab.evaluate().unwrap().unwrap());
    let vba = f64::from_bits(ba.evaluate().unwrap().unwrap());
    assert!((vab - vba).abs() < 1e-9);
}

#[test]
fn variance_update_equals_merge_of_batch_state() {
    // update(A, [x1..xk]) against merge(A, batch_state(x1..xk))
    let base = [2.0_f64, 4., 6.];
    let tail = [1.0_f64, 3., 5., 7.];

    let mut updated = VarianceAccumulator::try_new(StatsType::Population).unwrap();
    updated.update_batch(&bits_of(&base));
    updated.update_batch(&bits_of(&tail));

    let mut merged = VarianceAccumulator::try_new(StatsType::Population).unwrap();
    merged.update_batch(&bits_of(&base));
    let mut batch_state = VarianceAccumulator::try_new(StatsType::Population).unwrap();
    batch_state.update_batch(&bits_of(&tail));
    let (c, m, s) = batch_state.state();
    merged.merge(c, m, s);

    let vu = f64::from_bits(updated.evaluate().unwrap().unwrap());
    let vm = f64::from_bits(merged.evaluate().unwrap().unwrap());
    assert!((vu - vm).abs() < 1e-9);
    assert_eq!(updated.get_count(), merged.get_count());
}

#[test]
fn variance_state_fields_are_prefixed() {
    assert_eq!(format_state_name("bla", "count"), "bla[count]");
    let agg = VariancePop::new(
        ColumnExpr::new("a".to_string(), 0),
        "v".to_string(),
        DataType::Float64,
    );
    let fields = agg.state_fields().unwrap();
    assert_eq!(fields.len(), 3);
    assert_eq!(fields[0].name, "v[count]");
    assert_eq!(fields[0].data_type, DataType::UInt64);
    assert_eq!(fields[1].name, "v[mean]");
    assert_eq!(fields[2].name, "v[m2]");
    let acc = agg.create_accumulator().unwrap();
    assert_eq!(acc.stats_type, StatsType::Population);
    assert_eq!(agg.name(), "v");
    assert_eq!(agg.field().unwrap().data_type, DataType::Float64);
    assert_eq!(agg.expressions().len(), 1);
}
