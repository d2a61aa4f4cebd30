use microgrid_sim::power::PowerComponent;
use microgrid_sim::{SimError, MAX_POWER_MW};

fn comp(start: u64, vals: &[i64]) -> PowerComponent {
    let s: Vec<(u64, i64)> = vals.iter().enumerate().map(|(i, v)| (start + i as u64, *v)).collect();
    PowerComponent::new_ts(Some(s), None)
}

#[test]
fn merge_sums_column_wise() {
    let comps = vec![comp(0, &[1, 2, 3]), comp(0, &[10, 20, 30]), comp(0, &[100, 200, 300])];
    let agg = PowerComponent::merge_power_components(&comps, 1).unwrap();
    let sums = agg.demand.input_power_w_ts.unwrap();
    assert_eq!(sums, vec![(0, 111), (1, 222), (2, 333)]);
    assert!(agg.demand.output_power_w_ts.is_none());
    assert_eq!(agg.time_cycles, 1);
}

#[test]
fn merge_of_one_component_is_the_identity() {
    let vals = [7i64, 0, 42, 5];
    let comps = vec![comp(9, &vals)];
    let agg = PowerComponent::merge_power_components(&comps, 1).unwrap();
    let sums = agg.demand.input_power_w_ts.unwrap();
    let original: Vec<(u64, i64)> =
        vals.iter().enumerate().map(|(i, v)| (9 + i as u64, *v)).collect();
    assert_eq!(sums, original);
}

#[test]
fn twenty_chargers_at_full_draw_sum_exactly() {
    // Twenty identical components, each drawing a constant 1000 at every
    // timestamp, merge to exactly 20000 everywhere.
    let comps: Vec<PowerComponent> = (0..20).map(|_| comp(473352, &[1000; 24])).collect();
    let agg = PowerComponent::merge_power_components(&comps, 1).unwrap();
    let sums = agg.demand.input_power_w_ts.unwrap();
    assert_eq!(sums.len(), 24);
    for (i, p) in sums.iter().enumerate() {
        assert_eq!(p.0, 473352 + i as u64);
        assert_eq!(p.1, 20000);
    }
}

#[test]
fn merge_refuses_an_empty_fleet() {
    let comps: Vec<PowerComponent> = Vec::new();
    assert_eq!(
        PowerComponent::merge_power_components(&comps, 1).unwrap_err(),
        SimError::EmptyInput
    );
}

#[test]
fn merge_refuses_a_component_without_input() {
    let comps = vec![comp(0, &[1, 2]), PowerComponent::new_ts(None, None)];
    assert_eq!(
        PowerComponent::merge_power_components(&comps, 1).unwrap_err(),
        SimError::MissingSeries
    );
}

#[test]
fn merge_refuses_misaligned_components() {
    let comps = vec![comp(0, &[1, 2]), comp(1, &[1, 2])];
    assert_eq!(
        PowerComponent::merge_power_components(&comps, 1).unwrap_err(),
        SimError::Misaligned
    );
    let comps = vec![comp(0, &[1, 2]), comp(0, &[1, 2, 3])];
    assert_eq!(
        PowerComponent::merge_power_components(&comps, 1).unwrap_err(),
        SimError::Misaligned
    );
}

#[test]
fn merge_refuses_a_sum_past_the_power_bound() {
    let comps = vec![comp(0, &[MAX_POWER_MW]), comp(0, &[MAX_POWER_MW])];
    assert_eq!(
        PowerComponent::merge_power_components(&comps, 1).unwrap_err(),
        SimError::PowerOutOfRange
    );
}
