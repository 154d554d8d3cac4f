use mccga::genprobs::{
    counts_to_probabilities, generate_probability_vector, BoundsError, PointSource,
};
use mccga::PROBABILITY_SCALE;

struct UniformSource;

impl PointSource for UniformSource {
    fn next_point(&mut self, mins: &Vec<u64>, maxs: &Vec<u64>) -> Vec<u32> {
        let mut point: Vec<u32> = Vec::with_capacity(mins.len());
        for i in 0..mins.len() {
            let lo = f64::from_bits(mins[i]) as f32;
            let hi = f64::from_bits(maxs[i]) as f32;
            let coord = lo + rand::random::<f32>() * (hi - lo);
            point.push(coord.to_bits());
        }
        point
    }
}

fn to_bits_vec(v: &[f64]) -> Vec<u64> {
    v.iter().map(|x| x.to_bits()).collect()
}

#[test]
fn test_generateprobabilityvector() {
    let mins = to_bits_vec(&[0.0_f64, 0.0_f64]);
    let maxs = to_bits_vec(&[10.0_f64, 10.0_f64]);
    let mut source = UniformSource;
    let prob = generate_probability_vector(&mut source, &mins, &maxs, 10000).unwrap();
    for i in 0..prob.len() {
        assert!(prob[i] <= PROBABILITY_SCALE);
        assert!(prob[i] >= 0);
    }
}

#[test]
fn test_generateprobabilityvector_length() {
    let mins = to_bits_vec(&[-1.0, 0.0, 1.0]);
    let maxs = to_bits_vec(&[1.0, 2.0, 3.0]);
    let mut source = UniformSource;
    let prob = generate_probability_vector(&mut source, &mins, &maxs, 100).unwrap();
    assert_eq!(prob.len(), 96);
}

#[test]
fn test_generateprobabilityvector_dimension_mismatch() {
    let mins = to_bits_vec(&[0.0, 0.0]);
    let maxs = to_bits_vec(&[10.0]);
    let mut source = UniformSource;
    let r = generate_probability_vector(&mut source, &mins, &maxs, 100);
    assert_eq!(r, Err(BoundsError::DimensionMismatch));
}

#[test]
fn test_generateprobabilityvector_invalid_bounds() {
    let mins = to_bits_vec(&[0.0, 5.0]);
    let maxs = to_bits_vec(&[10.0, 4.0]);
    let mut source = UniformSource;
    let r = generate_probability_vector(&mut source, &mins, &maxs, 100);
    assert_eq!(r, Err(BoundsError::InvalidBounds));
}

#[test]
fn test_counts_to_probabilities_exact() {
    let counts: Vec<u64> = vec![0, 5, 10, 1];
    let probs = counts_to_probabilities(&counts, 10);
    assert_eq!(probs, vec![0, 500_000_000, 1_000_000_000, 100_000_000]);

    let thirds = counts_to_probabilities(&vec![1, 2], 3);
    assert_eq!(thirds, vec![333_333_333, 666_666_666]);
}

#[test]
fn test_constant_bounds_give_certain_bits() {
    // With a degenerate interval [2, 2] every draw encodes 2.0f32, so each
    // bit's empirical probability is exactly 0 or 1.
    let mins = to_bits_vec(&[2.0]);
    let maxs = to_bits_vec(&[2.0]);
    let mut source = UniformSource;
    let prob = generate_probability_vector(&mut source, &mins, &maxs, 50).unwrap();
    let expected_bits = mccga::byteworks::to_bitvector(2.0_f32.to_bits());
    assert_eq!(prob.len(), 32);
    for i in 0..32 {
        let expected = if expected_bits[i] == 1 { PROBABILITY_SCALE } else { 0 };
        assert_eq!(prob[i], expected);
    }
}
