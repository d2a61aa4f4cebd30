use microgrid_sim::batteries::BatteryStorage;
use microgrid_sim::power::PowerComponent;
use microgrid_sim::SimError;

fn series(start: u64, vals: &[i64]) -> Vec<(u64, i64)> {
    vals.iter().enumerate().map(|(i, v)| (start + i as u64, *v)).collect()
}

fn constant_series(start: u64, len: usize, v: i64) -> Vec<(u64, i64)> {
    (0..len).map(|i| (start + i as u64, v)).collect()
}

#[test]
fn constant_deficit_scenario() {
    // 48 hours, generation 100, demand 150, capacity 1000: the storage
    // level falls by 50 each hour and every hour is a deficit hour.
    let batt = BatteryStorage::new(1000, 1, 80, 48, 90).unwrap();
    let gen = PowerComponent::new_ts(None, Some(constant_series(0, 48, 100)));
    let dem = PowerComponent::new_ts(Some(constant_series(0, 48, 150)), None);
    let out = batt.update_power_component(&gen, &dem).unwrap();
    let storage = out.battery_state.storage.clone().unwrap();
    let flags = out.battery_state.neg_stat_ts.clone().unwrap();
    assert_eq!(storage.len(), 48);
    for t in 0..48usize {
        assert_eq!(storage[t].0, t as u64);
        assert_eq!(storage[t].1, -50 * (t as i64 + 1));
        assert!(flags[t].1);
    }
    assert_eq!(storage[0].1, -50);
    assert_eq!(storage[1].1, -100);
}

#[test]
fn clamped_at_capacity_scenario() {
    // Generation 1000, demand 0, capacity 500: clamped at 500 from the
    // first hour on, and no deficit anywhere.
    let batt = BatteryStorage::new(500, 1, 80, 48, 90).unwrap();
    let gen = PowerComponent::new_ts(None, Some(constant_series(7, 10, 1000)));
    let dem = PowerComponent::new_ts(Some(constant_series(7, 10, 0)), None);
    let out = batt.update_power_component(&gen, &dem).unwrap();
    let storage = out.battery_state.storage.clone().unwrap();
    let flags = out.battery_state.neg_stat_ts.clone().unwrap();
    for t in 0..10usize {
        assert_eq!(storage[t].1, 500);
        assert!(!flags[t].1);
    }
}

#[test]
fn echoes_inputs_and_timestamps() {
    let batt = BatteryStorage::new(10_000, 4, 80, 48, 90).unwrap();
    let g = series(100, &[5, 0, 9]);
    let d = series(100, &[1, 2, 3]);
    let gen = PowerComponent::new_ts(None, Some(g.clone()));
    let dem = PowerComponent::new_ts(Some(d.clone()), None);
    let out = batt.update_power_component(&gen, &dem).unwrap();
    assert_eq!(out.battery_state.input_power_w_ts.clone().unwrap(), g);
    assert_eq!(out.battery_state.output_power_w_ts.clone().unwrap(), d);
    let storage = out.battery_state.storage.clone().unwrap();
    assert_eq!(storage, vec![(100, 4), (101, 2), (102, 8)]);
}

#[test]
fn rerun_is_bit_identical() {
    // Identical inputs and configuration give a bit-identical trajectory.
    let g = constant_series(0, 72, 300);
    let d = series(0, &(0..72).map(|i| (i * 13) % 700).collect::<Vec<i64>>());
    let gen = PowerComponent::new_ts(None, Some(g));
    let dem = PowerComponent::new_ts(Some(d), None);
    let b1 = BatteryStorage::new(2000, 2, 80, 48, 90).unwrap();
    let b2 = BatteryStorage::new(2000, 2, 80, 48, 90).unwrap();
    let r1 = b1.update_power_component(&gen, &dem).unwrap();
    let r2 = b2.update_power_component(&gen, &dem).unwrap();
    assert_eq!(r1.battery_state.storage, r2.battery_state.storage);
    assert_eq!(r1.battery_state.input_power_w_ts, r2.battery_state.input_power_w_ts);
    assert_eq!(r1.battery_state.output_power_w_ts, r2.battery_state.output_power_w_ts);
    assert_eq!(r1.battery_state.neg_stat_ts, r2.battery_state.neg_stat_ts);
}

#[test]
fn refuses_missing_series() {
    let batt = BatteryStorage::new(1000, 1, 80, 48, 90).unwrap();
    let gen = PowerComponent::new_ts(None, None);
    let dem = PowerComponent::new_ts(Some(constant_series(0, 3, 1)), None);
    assert_eq!(batt.update_power_component(&gen, &dem).unwrap_err(), SimError::MissingSeries);
}

#[test]
fn refuses_misaligned_series() {
    let batt = BatteryStorage::new(1000, 1, 80, 48, 90).unwrap();
    let gen = PowerComponent::new_ts(None, Some(constant_series(0, 3, 1)));
    let shifted = PowerComponent::new_ts(Some(constant_series(1, 3, 1)), None);
    assert_eq!(
        batt.clone().update_power_component(&gen, &shifted).unwrap_err(),
        SimError::Misaligned
    );
    let shorter = PowerComponent::new_ts(Some(constant_series(0, 2, 1)), None);
    assert_eq!(batt.update_power_component(&gen, &shorter).unwrap_err(), SimError::Misaligned);
}

#[test]
fn empty_series_is_a_valid_run() {
    let batt = BatteryStorage::new(1000, 1, 80, 48, 90).unwrap();
    let gen = PowerComponent::new_ts(None, Some(Vec::new()));
    let dem = PowerComponent::new_ts(Some(Vec::new()), None);
    let out = batt.update_power_component(&gen, &dem).unwrap();
    assert_eq!(out.battery_state.storage.clone().unwrap().len(), 0);
}

#[test]
fn refuses_zero_capacity() {
    assert_eq!(BatteryStorage::new(0, 4, 80, 48, 90).unwrap_err(), SimError::InvalidCapacity);
    assert_eq!(BatteryStorage::new(4, 0, 80, 48, 90).unwrap_err(), SimError::InvalidCapacity);
    assert!(BatteryStorage::new(2_000_000, 4, 80, 48, 90).is_ok());
}

#[test]
fn trajectory_rows_zip_the_four_series() {
    let batt = BatteryStorage::new(1000, 1, 80, 48, 90).unwrap();
    let gen = PowerComponent::new_ts(None, Some(series(5, &[100, 2000])));
    let dem = PowerComponent::new_ts(Some(series(5, &[150, 0])), None);
    let out = batt.update_power_component(&gen, &dem).unwrap();
    let rows = microgrid_sim::batteries::trajectory_rows(&out).unwrap();
    assert_eq!(rows, vec![(5, -50, 100, 150, true), (6, 1000, 2000, 0, false)]);
}

#[test]
fn trajectory_rows_refuse_an_unfilled_battery() {
    let batt = BatteryStorage::new(1000, 1, 80, 48, 90).unwrap();
    assert_eq!(
        microgrid_sim::batteries::trajectory_rows(&batt).unwrap_err(),
        SimError::MissingSeries
    );
}
