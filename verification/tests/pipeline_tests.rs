use microgrid_sim::batteries::BatteryStorage;
use microgrid_sim::chargers::{apply_utilization, Charger};
use microgrid_sim::photovoltaic::{PvSystem, SolarParams};
use microgrid_sim::sim::run_simulation;
use microgrid_sim::time_processes::{modulated_markov_poison_process, FixedSampler};
use microgrid_sim::SimError;

const D1: &str = "2024-01-01 00:00:00+0000";
const D2: &str = "2024-01-03 00:00:00+0000";
const HOUR0: u64 = 473352;
const CHARGER_INPUT_MW: i64 = 187_560_317; // floor(sqrt(3) * 480 * 240 * 0.94) in milliwatts

fn template_charger() -> Charger {
    Charger::new(180000, 150, 1000, 600, 480, 60, 240, 300, 199300, 980, 940)
}

fn built_fleet(n: usize) -> Vec<Charger> {
    let mut template = template_charger();
    template.add_input_power_ts(D1, D2).unwrap();
    (0..n).map(|_| template.clone()).collect()
}

fn solar_system() -> PvSystem {
    let irradiance: Vec<(u64, i64)> = (0..48).map(|t| (HOUR0 + t, 500)).collect();
    PvSystem::new(13000, 450, 640, 7000, 7000, SolarParams { irradiance })
}

#[test]
fn charger_series_is_the_constant_rated_draw() {
    let mut c = template_charger();
    c.add_input_power_ts(D1, D2).unwrap();
    let input = c.power.input_power_w_ts.clone().unwrap();
    let output = c.power.output_power_w_ts.clone().unwrap();
    assert_eq!(input.len(), 48);
    assert_eq!(output.len(), 48);
    for t in 0..48usize {
        assert_eq!(input[t].0, HOUR0 + t as u64);
        assert_eq!(input[t].1, CHARGER_INPUT_MW);
        assert_eq!(output[t].0, HOUR0 + t as u64);
    }
    // The output side squares around sqrt(3) * 1000 * 600 * 0.98.
    let w = output[0].1 as u128;
    let x: u128 = 1000 * 600 * 980;
    assert!(w * w <= 3 * x * x && 3 * x * x < (w + 1) * (w + 1));
}

#[test]
fn charger_refuses_a_backward_range_untouched() {
    let mut c = template_charger();
    assert_eq!(c.add_input_power_ts(D2, D1).unwrap_err(), SimError::BadDateRange);
    assert!(c.power.input_power_w_ts.is_none());
    assert!(c.power.output_power_w_ts.is_none());
}

#[test]
fn utilization_scales_the_draw_by_count_over_sixty() {
    let fleet = built_fleet(1);
    let mut sampler = FixedSampler { values: vec![30], next: 0 };
    let lambda = vec![1000i64; 24];
    let (sm, dm) = modulated_markov_poison_process(D1, D2, &lambda, &mut sampler).unwrap();
    let weighted = apply_utilization(&fleet[0], &sm, &dm).unwrap();
    let input = weighted.input_power_w_ts.unwrap();
    assert_eq!(input.len(), 48);
    for t in 0..48usize {
        assert_eq!(input[t].0, HOUR0 + t as u64);
        assert_eq!(input[t].1, CHARGER_INPUT_MW * 30 / 60);
    }
    assert!(weighted.output_power_w_ts.is_none());
}

#[test]
fn utilization_refuses_a_series_off_the_grid() {
    let mut c = template_charger();
    c.add_input_power_ts(D1, "2024-01-02 00:00:00+0000").unwrap();
    let mut sampler = FixedSampler { values: vec![1], next: 0 };
    let lambda = vec![1000i64; 24];
    let (sm, dm) = modulated_markov_poison_process(D1, D2, &lambda, &mut sampler).unwrap();
    assert_eq!(apply_utilization(&c, &sm, &dm).unwrap_err(), SimError::Misaligned);
}

#[test]
fn pv_converts_irradiance_exactly() {
    let sys = solar_system();
    let pc = sys.into_power_component().unwrap();
    let out = pc.output_power_w_ts.unwrap();
    assert_eq!(out.len(), 48);
    for t in 0..48usize {
        assert_eq!(out[t].0, HOUR0 + t as u64);
        assert_eq!(out[t].1, 500 * 13000 * 450);
    }
    assert_eq!(pc.input_power_w_ts, Some(Vec::new()));
}

#[test]
fn pv_refuses_negative_irradiance() {
    let sys = PvSystem::new(
        13000,
        450,
        640,
        7000,
        7000,
        SolarParams { irradiance: vec![(HOUR0, -1)] },
    );
    assert_eq!(sys.into_power_component().unwrap_err(), SimError::PowerOutOfRange);
}

#[test]
fn full_run_produces_a_consistent_trajectory() {
    let fleet = built_fleet(20);
    let battery = BatteryStorage::new(2_000_000, 4, 80, 48, 90).unwrap();
    let cap = 2_000_000i64 * 4;
    let lambda = vec![60_000i64; 24];
    let mut sampler = FixedSampler { values: vec![60], next: 0 };
    let (bat, stat) =
        run_simulation(&fleet, &solar_system(), battery, &lambda, D1, D2, &mut sampler).unwrap();

    let storage = bat.battery_state.storage.clone().unwrap();
    let input = bat.battery_state.input_power_w_ts.clone().unwrap();
    let output = bat.battery_state.output_power_w_ts.clone().unwrap();
    let flags = bat.battery_state.neg_stat_ts.clone().unwrap();
    assert_eq!(storage.len(), 48);

    // The demand is 20 chargers at full utilization (count 60), the
    // generation 0.5 intensity over the panel fleet.
    let demand = 20 * CHARGER_INPUT_MW;
    let generation = 500 * 13000 * 450;
    let mut expected = 0i64;
    for t in 0..48usize {
        assert_eq!(storage[t].0, HOUR0 + t as u64);
        assert_eq!(input[t], (HOUR0 + t as u64, generation));
        assert_eq!(output[t], (HOUR0 + t as u64, demand));
        let candidate = expected + generation - demand;
        expected = if candidate >= cap { cap } else { candidate };
        assert_eq!(storage[t].1, expected);
        assert_eq!(flags[t].1, storage[t].1 < 0);
    }

    assert_eq!(stat.chargers_count, 20);
    assert_eq!(stat.horizon_hours, 48);
    assert_eq!(stat.battery_size, cap as u64);
    assert_eq!(stat.energy_system_size, 13000 * 450);
    assert_eq!(stat.average_usage, 24 * 60_000 / 60);
    assert_eq!(stat.max_output, storage.iter().map(|p| p.1).max().unwrap());
    assert_eq!(
        stat.deficit_hours as usize,
        flags.iter().filter(|p| p.1).count()
    );
}

#[test]
fn identical_runs_are_bit_identical() {
    let fleet = built_fleet(3);
    let lambda = vec![2000i64; 24];
    let b1 = BatteryStorage::new(2_000_000, 4, 80, 48, 90).unwrap();
    let b2 = BatteryStorage::new(2_000_000, 4, 80, 48, 90).unwrap();
    let mut s1 = FixedSampler { values: vec![7, 0, 3, 11], next: 0 };
    let mut s2 = FixedSampler { values: vec![7, 0, 3, 11], next: 0 };
    let (r1, st1) = run_simulation(&fleet, &solar_system(), b1, &lambda, D1, D2, &mut s1).unwrap();
    let (r2, st2) = run_simulation(&fleet, &solar_system(), b2, &lambda, D1, D2, &mut s2).unwrap();
    assert_eq!(r1.battery_state.storage, r2.battery_state.storage);
    assert_eq!(r1.battery_state.neg_stat_ts, r2.battery_state.neg_stat_ts);
    assert_eq!(st1, st2);
}

#[test]
fn run_refuses_an_empty_fleet() {
    let battery = BatteryStorage::new(2_000_000, 4, 80, 48, 90).unwrap();
    let lambda = vec![1000i64; 24];
    let mut sampler = FixedSampler { values: vec![1], next: 0 };
    let r = run_simulation(
        &Vec::new(),
        &solar_system(),
        battery,
        &lambda,
        D1,
        D2,
        &mut sampler,
    );
    assert_eq!(r.unwrap_err(), SimError::EmptyInput);
}

#[test]
fn run_refuses_a_charger_without_a_prepared_series() {
    let fleet = vec![template_charger()];
    let battery = BatteryStorage::new(2_000_000, 4, 80, 48, 90).unwrap();
    let lambda = vec![1000i64; 24];
    let mut sampler = FixedSampler { values: vec![1], next: 0 };
    let r = run_simulation(&fleet, &solar_system(), battery, &lambda, D1, D2, &mut sampler);
    assert_eq!(r.unwrap_err(), SimError::MissingSeries);
}

#[test]
fn run_refuses_irradiance_off_the_grid() {
    let fleet = built_fleet(2);
    let battery = BatteryStorage::new(2_000_000, 4, 80, 48, 90).unwrap();
    let lambda = vec![1000i64; 24];
    let mut sampler = FixedSampler { values: vec![1], next: 0 };
    // One hour short of the 48-hour grid.
    let irradiance: Vec<(u64, i64)> = (0..47).map(|t| (HOUR0 + t, 500)).collect();
    let pv = PvSystem::new(13000, 450, 640, 7000, 7000, SolarParams { irradiance });
    let r = run_simulation(&fleet, &pv, battery, &lambda, D1, D2, &mut sampler);
    assert_eq!(r.unwrap_err(), SimError::Misaligned);
}

#[test]
fn run_refuses_negative_irradiance_before_any_draw() {
    let fleet = built_fleet(2);
    let battery = BatteryStorage::new(2_000_000, 4, 80, 48, 90).unwrap();
    let lambda = vec![1000i64; 24];
    let mut sampler = FixedSampler { values: vec![1], next: 0 };
    let mut irradiance: Vec<(u64, i64)> = (0..48).map(|t| (HOUR0 + t, 500)).collect();
    irradiance[3].1 = -5;
    let pv = PvSystem::new(13000, 450, 640, 7000, 7000, SolarParams { irradiance });
    let r = run_simulation(&fleet, &pv, battery, &lambda, D1, D2, &mut sampler);
    assert_eq!(r.unwrap_err(), SimError::PowerOutOfRange);
}

#[test]
fn run_with_an_all_zero_profile_succeeds_with_zero_demand() {
    // An all-zero profile never consults the sampler, so success is owed
    // and the demand echo is identically zero.
    let fleet = built_fleet(5);
    let battery = BatteryStorage::new(2_000_000, 4, 80, 48, 90).unwrap();
    let lambda = vec![0i64; 24];
    let mut sampler = FixedSampler { values: vec![999], next: 0 };
    let (bat, stat) =
        run_simulation(&fleet, &solar_system(), battery, &lambda, D1, D2, &mut sampler).unwrap();
    let input = bat.battery_state.input_power_w_ts.clone().unwrap();
    let output = bat.battery_state.output_power_w_ts.clone().unwrap();
    for t in 0..48usize {
        // Generation echoes the scaled irradiance table point for point.
        assert_eq!(input[t], (HOUR0 + t as u64, 500 * 13000 * 450));
        assert_eq!(output[t], (HOUR0 + t as u64, 0));
    }
    assert_eq!(stat.deficit_hours, 0);
    assert_eq!(stat.average_usage, 0);
}

#[test]
fn zero_rate_hours_draw_no_demand() {
    // Hours whose arrival rate is zero never consult the sampler: the
    // demand echo is zero there and positive in the busy hours.
    let fleet = built_fleet(4);
    let battery = BatteryStorage::new(2_000_000, 4, 80, 48, 90).unwrap();
    let mut lambda = vec![0i64; 24];
    for h in 8..18 {
        lambda[h] = 30_000;
    }
    let mut sampler = FixedSampler { values: vec![60], next: 0 };
    let (bat, _stat) =
        run_simulation(&fleet, &solar_system(), battery, &lambda, D1, D2, &mut sampler).unwrap();
    let output = bat.battery_state.output_power_w_ts.clone().unwrap();
    for t in 0..48usize {
        if lambda[t % 24] == 0 {
            assert_eq!(output[t].1, 0);
        } else {
            assert_eq!(output[t].1, 4 * CHARGER_INPUT_MW);
        }
    }
}

#[test]
fn run_refuses_a_bad_date_range() {
    let fleet = built_fleet(1);
    let battery = BatteryStorage::new(2_000_000, 4, 80, 48, 90).unwrap();
    let lambda = vec![1000i64; 24];
    let mut sampler = FixedSampler { values: vec![1], next: 0 };
    let r = run_simulation(&fleet, &solar_system(), battery, &lambda, D2, D1, &mut sampler);
    assert_eq!(r.unwrap_err(), SimError::BadDateRange);
}
