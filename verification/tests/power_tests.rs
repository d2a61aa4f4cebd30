use microgrid_sim::power::{isqrt, PowerComponent};

#[test]
fn isqrt_exact_values() {
    assert_eq!(isqrt(0), 0);
    assert_eq!(isqrt(1), 1);
    assert_eq!(isqrt(3), 1);
    assert_eq!(isqrt(4), 2);
    assert_eq!(isqrt(15), 3);
    assert_eq!(isqrt(16), 4);
    assert_eq!(isqrt(1u128 << 100), 1u64 << 50);
    assert_eq!(isqrt((1u128 << 100) - 1), (1u64 << 50) - 1);
}

#[test]
fn power_formula_small_exact_value() {
    // 1 V, 1 A, power factor 1.000: floor(sqrt(3) * 1000) milliwatts.
    assert_eq!(PowerComponent::power(1, 1, 1000).unwrap(), 1732);
}

#[test]
fn power_formula_charger_rating() {
    // The 480 VAC / 240 A / 0.94 rating sheet of the template charger:
    // floor(sqrt(3) * 480 * 240 * 0.94) watts, in milliwatts.
    assert_eq!(PowerComponent::power(480, 240, 940).unwrap(), 187_560_317);
}

#[test]
fn power_result_squares_around_the_radicand() {
    let volts = 600u64;
    let amps = 77u64;
    let pf = 873u64;
    let r = PowerComponent::power(volts, amps, pf).unwrap() as u128;
    let x = (volts * amps * pf) as u128;
    assert!(r * r <= 3 * x * x);
    assert!((r + 1) * (r + 1) > 3 * x * x);
}

#[test]
fn component_constructors() {
    let c = PowerComponent::new_ts(Some(vec![(0, 5)]), None);
    assert_eq!(c.input_power_w_ts, Some(vec![(0, 5)]));
    assert!(c.output_power_w_ts.is_none());
}
