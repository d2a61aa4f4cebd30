use microgrid_sim::time_processes::{
    modulated_markov_poison_process, sample_from_poisson_distributions, FixedSampler, RateSampler,
};
use microgrid_sim::SimError;
use rand::rngs::StdRng;
use rand::SeedableRng;
use rand_distr::Distribution;

const D1: &str = "2024-01-01 00:00:00+00:00";
const D2: &str = "2024-01-03 00:00:00+00:00";
const HOUR0: u64 = 473352; // 2024-01-01 00:00 UTC in hours since the epoch

struct PoissonSampler {
    rng: StdRng,
}

impl RateSampler for PoissonSampler {
    fn sample_count(&mut self, rate_milli: u64) -> u64 {
        let lambda = rate_milli as f64 / 1000.0;
        match rand_distr::Poisson::new(lambda) {
            Ok(dist) => dist.sample(&mut self.rng) as u64,
            Err(_) => 0,
        }
    }
}

#[test]
fn all_zero_profile_samples_all_zero() {
    // Even a sampler that would return a non-zero count is never consulted
    // for a zero rate: the whole matrix is deterministically zero.
    let mut sampler = FixedSampler { values: vec![5, 7, 9], next: 0 };
    let lambda = vec![0i64; 24];
    let (sm, _dm) = modulated_markov_poison_process(D1, D2, &lambda, &mut sampler).unwrap();
    assert_eq!(sm.days, 2);
    for h in 0..24 {
        for d in 0..2 {
            assert_eq!(sm.get(h, d), 0);
        }
    }
}

#[test]
fn date_matrix_carries_the_hour_grid() {
    let mut sampler = FixedSampler { values: vec![1], next: 0 };
    let lambda = vec![1000i64; 24];
    let (sm, dm) = modulated_markov_poison_process(D1, D2, &lambda, &mut sampler).unwrap();
    assert_eq!(sm.days, 2);
    assert_eq!(dm.days, 2);
    for h in 0..24 {
        for d in 0..2 {
            assert_eq!(dm.get(h, d), HOUR0 + 24 * d as u64 + h as u64);
        }
    }
}

#[test]
fn fixed_sampler_fills_cells_in_sampling_order() {
    // One draw per (day, hour) cell, day-major: cell (h, d) holds draw
    // number d*24+h of the fixed sequence.
    let values: Vec<u64> = (0..48).collect();
    let mut sampler = FixedSampler { values, next: 0 };
    let lambda = vec![1000i64; 24];
    let (sm, _dm) = modulated_markov_poison_process(D1, D2, &lambda, &mut sampler).unwrap();
    for h in 0..24 {
        for d in 0..2 {
            assert_eq!(sm.get(h, d), (d * 24 + h) as u64);
        }
    }
}

#[test]
fn flat_sampling_is_day_major_and_zero_respecting() {
    let mut sampler = FixedSampler { values: vec![3], next: 0 };
    let rates = vec![1000u64, 0, 2000];
    let flat = sample_from_poisson_distributions(&rates, &mut sampler, 4);
    assert_eq!(flat.len(), 12);
    for k in 0..12 {
        if k % 3 == 1 {
            assert_eq!(flat[k], 0);
        } else {
            assert_eq!(flat[k], 3);
        }
    }
}

#[test]
fn refuses_unparsable_dates() {
    let mut sampler = FixedSampler { values: vec![1], next: 0 };
    let lambda = vec![1000i64; 24];
    let r = modulated_markov_poison_process("not a date", D2, &lambda, &mut sampler);
    assert_eq!(r.unwrap_err(), SimError::BadDateRange);
}

#[test]
fn refuses_an_empty_or_backward_range() {
    let mut sampler = FixedSampler { values: vec![1], next: 0 };
    let lambda = vec![1000i64; 24];
    let r = modulated_markov_poison_process(D1, D1, &lambda, &mut sampler);
    assert_eq!(r.unwrap_err(), SimError::BadDateRange);
    let r = modulated_markov_poison_process(D2, D1, &lambda, &mut sampler);
    assert_eq!(r.unwrap_err(), SimError::BadDateRange);
}

#[test]
fn refuses_a_partial_trailing_day() {
    let mut sampler = FixedSampler { values: vec![1], next: 0 };
    let lambda = vec![1000i64; 24];
    let r = modulated_markov_poison_process(
        D1,
        "2024-01-01 01:00:00+00:00",
        &lambda,
        &mut sampler,
    );
    assert_eq!(r.unwrap_err(), SimError::BadDateRange);
}

#[test]
fn refuses_a_wrong_profile_length() {
    let mut sampler = FixedSampler { values: vec![1], next: 0 };
    let lambda = vec![1000i64; 23];
    let r = modulated_markov_poison_process(D1, D2, &lambda, &mut sampler);
    assert_eq!(r.unwrap_err(), SimError::InvalidProfileLength);
}

#[test]
fn refuses_a_negative_rate() {
    let mut sampler = FixedSampler { values: vec![1], next: 0 };
    let mut lambda = vec![1000i64; 24];
    lambda[7] = -1;
    let r = modulated_markov_poison_process(D1, D2, &lambda, &mut sampler);
    assert_eq!(r.unwrap_err(), SimError::InvalidRate);
}

#[test]
fn accepts_the_offset_format_without_a_colon() {
    let mut sampler = FixedSampler { values: vec![1], next: 0 };
    let lambda = vec![1000i64; 24];
    let (sm, dm) = modulated_markov_poison_process(
        "2024-01-01 00:00:00+0000",
        "2024-01-02 00:00:00+0000",
        &lambda,
        &mut sampler,
    )
    .unwrap();
    assert_eq!(sm.days, 1);
    assert_eq!(dm.get(0, 0), HOUR0);
}

#[test]
fn seeded_poisson_runs_are_reproducible() {
    let lambda: Vec<i64> = vec![
        1000, 1000, 1000, 1000, 1000, 1000, 1000, 45000, 31000, 31000, 1000, 45000, 45000, 1000,
        45000, 1000, 1000, 1000, 1000, 1000, 1000, 1000, 1000, 1000,
    ];
    let mut s1 = PoissonSampler { rng: StdRng::seed_from_u64(42) };
    let mut s2 = PoissonSampler { rng: StdRng::seed_from_u64(42) };
    let (m1, _) = modulated_markov_poison_process(D1, D2, &lambda, &mut s1).unwrap();
    let (m2, _) = modulated_markov_poison_process(D1, D2, &lambda, &mut s2).unwrap();
    for h in 0..24 {
        for d in 0..2 {
            assert_eq!(m1.get(h, d), m2.get(h, d));
        }
    }
}

#[test]
fn fixed_sampler_cycles_through_its_values() {
    let mut s = FixedSampler { values: vec![4, 5], next: 0 };
    assert_eq!(s.sample_count(1000), 4);
    assert_eq!(s.sample_count(1000), 5);
    assert_eq!(s.sample_count(1000), 4);
    let mut empty = FixedSampler { values: vec![], next: 0 };
    assert_eq!(empty.sample_count(1000), 0);
}
