use mccga::hookejeeves::{HjProbe, HjSearch};
use mccga::realbits::{real_half, real_le, real_lt, real_neg};

fn decode_point(bits: &Vec<u64>) -> Vec<f64> {
    bits.iter().map(|b| f64::from_bits(*b)).collect()
}

fn run_hj(
    f: fn(&Vec<f64>) -> f64,
    parv: Vec<f64>,
    maxiter: usize,
    startstep: f64,
    endstep: f64,
) -> Vec<f64> {
    let start: Vec<u64> = parv.iter().map(|x| x.to_bits()).collect();
    let mut search = HjSearch::new(start, maxiter, startstep.to_bits(), endstep.to_bits());
    while let Some(probe) = search.next_probe() {
        match probe {
            HjProbe::Base => {
                let point = decode_point(search.current_point());
                let cost = f(&point);
                search.advance(0, cost.to_bits());
            }
            HjProbe::Coord { index, delta } => {
                let mut point = decode_point(search.current_point());
                let moved = point[index] + f64::from_bits(delta);
                point[index] = moved;
                let cost = f(&point);
                search.advance(moved.to_bits(), cost.to_bits());
            }
        }
    }
    decode_point(search.current_point())
}

#[test]
fn test_hj_minimization() {
    fn cfmin(x: &Vec<f64>) -> f64 {
        let mut sum: f64 = 0.0;
        for i in 0..x.len() {
            sum += x[i] * x[i];
        }
        sum
    }
    let eps = 0.00001;
    let parlen = 20;
    let mut starter = vec![0.0_f64; parlen];
    for i in 1..parlen {
        starter[i] = rand::random();
    }
    let hjresult = run_hj(cfmin, starter, 10000, 1000.0, 0.000001);
    for i in 0..parlen {
        assert!((hjresult[i] - 0.0_f64).powf(2.0) <= eps);
    }
}

#[test]
fn test_hj_two_dimensional_quadratic() {
    fn shifted(x: &Vec<f64>) -> f64 {
        (x[0] - 3.0) * (x[0] - 3.0) + (x[1] + 1.5) * (x[1] + 1.5)
    }
    let result = run_hj(shifted, vec![0.0, 0.0], 10000, 1.0, 1.0e-9);
    assert!((result[0] - 3.0).abs() < 1.0e-6);
    assert!((result[1] + 1.5).abs() < 1.0e-6);
}

#[test]
fn test_hj_zero_budget_returns_start() {
    fn anything(x: &Vec<f64>) -> f64 {
        x[0]
    }
    let result = run_hj(anything, vec![4.25, -1.0], 0, 1.0, 1.0e-6);
    assert_eq!(result, vec![4.25, -1.0]);
}

#[test]
fn test_real_lt_matches_float_order() {
    let values: Vec<f64> = vec![
        f64::NEG_INFINITY,
        -1.0e300,
        -2.5,
        -1.0e-320,
        -0.0,
        0.0,
        1.0e-320,
        0.25,
        3.0,
        1.0e300,
        f64::INFINITY,
        f64::NAN,
    ];
    for a in values.iter() {
        for b in values.iter() {
            assert_eq!(real_lt(a.to_bits(), b.to_bits()), a < b, "lt {} {}", a, b);
            assert_eq!(real_le(a.to_bits(), b.to_bits()), a <= b, "le {} {}", a, b);
        }
    }
}

#[test]
fn test_real_neg_matches_float_negation() {
    let values: Vec<f64> = vec![0.0, -0.0, 1.5, -2.25, f64::INFINITY, 1.0e-320];
    for v in values {
        assert_eq!(real_neg(v.to_bits()), (-v).to_bits());
    }
}

#[test]
fn test_real_half_matches_float_halving() {
    let values: Vec<f64> = vec![
        0.0,
        -0.0,
        10.0,
        5.0,
        1.0,
        0.0001,
        -768.125,
        f64::MIN_POSITIVE,
        f64::from_bits(1),
        f64::from_bits(2),
        f64::from_bits(3),
        f64::from_bits(0x000f_ffff_ffff_ffff),
        f64::from_bits(0x0010_0000_0000_0001),
        f64::INFINITY,
        f64::NEG_INFINITY,
        1.0e300,
    ];
    for v in values {
        assert_eq!(real_half(v.to_bits()), (v / 2.0).to_bits(), "half of {}", v);
    }
}
