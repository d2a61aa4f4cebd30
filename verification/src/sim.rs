//! The simulation invocation surface: one deterministic, sequential
//! pipeline per run — sample the demand process, weight the charger fleet,
//! merge it into one aggregate demand, convert irradiance into generation,
//! step the battery, and reduce the trajectory to a summary record. All
//! stochasticity lives in the sampler handed in; everything after the draws
//! is a pure function of its inputs, and every input-determined failure is
//! detected before the drawn counts can influence the outcome.
use crate::batteries::{
    flags_of, input_echo_of, output_echo_of, storage_at, storage_of, trajectory_aligned,
    trajectory_present, BatteryStorage,
};
use crate::chargers::{apply_utilization, on_grid, weighted_in_range, weighted_mw, Charger};
use crate::photovoltaic::{irradiance_ok, pv_mw, PvSystem};
use crate::power::{
    all_aligned_with, all_have_input, col_sum, col_sums_in_range, input_of, lemma_sum_at_zero,
    output_of, PowerComponent,
};
use crate::series::{aligned, vals_of, values_in_range, PowerPoint};
use crate::stats::{count_true, flag_bits, gen_stat, seq_max, sum_of, StatData};
use crate::time_processes::{
    date_grid_ok, horizon_hours, modulated_markov_poison_process, parse_hour_range,
    parsed_utc_seconds, rates_ok, start_hour, RateSampler,
};
use crate::{SimError, MAX_HORIZON_HOURS, MAX_POWER_MW};
use vstd::arithmetic::div_mod::lemma_fundamental_div_mod;
use vstd::prelude::*;

verus! {

/// The series runs exactly over the `h`-hour grid that starts at hour `s0`:
/// one point per hour, in order.
pub open spec fn hour_grid_series(s: Seq<PowerPoint>, s0: int, h: int) -> bool {
    &&& s.len() == h
    &&& forall|t: int| 0 <= t < s.len() ==> (#[trigger] s[t]).0 == s0 + t
}

/// Every charger of the fleet carries an input series.
pub open spec fn fleet_inputs_present(fleet: Seq<Charger>) -> bool {
    forall|k: int| 0 <= k < fleet.len() ==> (#[trigger] fleet[k]).power.input_power_w_ts is Some
}

/// Every charger's input series sits on the run's hour grid.
pub open spec fn fleet_on_grid(fleet: Seq<Charger>, s0: int, h: int) -> bool {
    forall|k: int|
        0 <= k < fleet.len() ==> hour_grid_series(
            input_of((#[trigger] fleet[k]).power),
            s0,
            h,
        )
}

/// Every rate of the profile is zero.
pub open spec fn all_rates_zero(lambda: Seq<i64>) -> bool {
    forall|h: int| 0 <= h < lambda.len() ==> #[trigger] lambda[h] == 0
}

/// Checks that a series runs exactly over the hour grid `[s0, s0 + len)`.
fn check_hour_grid(s: &Vec<PowerPoint>, s0: u64, len: u64) -> (r: bool)
    requires
        s0 + len <= u64::MAX,
    ensures
        r == hour_grid_series(s@, s0 as int, len as int),
{
    if (s.len() as u64) != len {
        return false;
    }
    let n = s.len();
    let mut t: usize = 0;
    while t < n
        invariant
            n == s@.len(),
            n == len,
            s0 + len <= u64::MAX,
            0 <= t <= n,
            forall|j: int| 0 <= j < t ==> (#[trigger] s@[j]).0 == s0 + j,
        decreases n - t,
    {
        if s[t].0 != s0 + (t as u64) {
            return false;
        }
        t = t + 1;
    }
    true
}

/// Runs one simulation: draws the session-count grid for `[date1, date2)`
/// through the sampler, scales every charger's rated draw by it, merges the
/// fleet into the aggregate demand, converts the photovoltaic irradiance
/// into generation, steps the battery over the aligned pair, and reduces
/// the trajectory to its summary record.
///
/// Every input-determined failure is pinned down exactly: each
/// configuration error (bad date range, malformed or negative profile,
/// empty fleet, a charger without a prepared series, a series off the hour
/// grid) comes if and only if its condition holds, and out-of-bound
/// irradiance is refused before any drawn count matters. The one failure
/// the drawn counts can cause is `PowerOutOfRange`, when a weighted draw or
/// a column sum passes the machine bound; with an all-zero profile no draw
/// is consulted, so a run over otherwise valid inputs is then guaranteed to
/// succeed. On success the trajectory sits on the hour grid, its
/// generation echo equals the scaled irradiance table point for point, its
/// demand echo stays within the power bound and is zero at every hour
/// whose rate is zero, the storage series satisfies the clamped recurrence
/// over the two echoes, the deficit flags mark exactly the negative hours,
/// and the summary record reduces that trajectory exactly.
pub fn run_simulation<S: RateSampler>(
    charging_station: &Vec<Charger>,
    base_photovoltaic: &PvSystem,
    battery_storage: BatteryStorage,
    lambda: &Vec<i64>,
    date1: &str,
    date2: &str,
    sampler: &mut S,
) -> (r: Result<(BatteryStorage, StatData), SimError>)
    requires
        battery_storage.config_wf(),
        base_photovoltaic.ratings_wf(),
        base_photovoltaic.params.irradiance@.len() <= MAX_HORIZON_HOURS,
        forall|k: int|
            0 <= k < charging_station@.len() ==> values_in_range(
                input_of((#[trigger] charging_station@[k]).power),
            ),
    ensures
        !date_grid_ok(date1@, date2@) <==> r == Err::<(BatteryStorage, StatData), SimError>(
            SimError::BadDateRange,
        ),
        (date_grid_ok(date1@, date2@) && lambda@.len() != 24) <==> r == Err::<
            (BatteryStorage, StatData),
            SimError,
        >(SimError::InvalidProfileLength),
        (date_grid_ok(date1@, date2@) && lambda@.len() == 24 && !rates_ok(lambda@)) <==> r
            == Err::<(BatteryStorage, StatData), SimError>(SimError::InvalidRate),
        (date_grid_ok(date1@, date2@) && lambda@.len() == 24 && rates_ok(lambda@)
            && charging_station@.len() == 0) <==> r == Err::<
            (BatteryStorage, StatData),
            SimError,
        >(SimError::EmptyInput),
        (date_grid_ok(date1@, date2@) && lambda@.len() == 24 && rates_ok(lambda@)
            && charging_station@.len() > 0 && !fleet_inputs_present(charging_station@)) <==> r
            == Err::<(BatteryStorage, StatData), SimError>(SimError::MissingSeries),
        (date_grid_ok(date1@, date2@) && lambda@.len() == 24 && rates_ok(lambda@)
            && charging_station@.len() > 0 && fleet_inputs_present(charging_station@) && !(
        fleet_on_grid(charging_station@, start_hour(date1@), horizon_hours(date1@, date2@))
            && hour_grid_series(
            base_photovoltaic.params.irradiance@,
            start_hour(date1@),
            horizon_hours(date1@, date2@),
        ))) <==> r == Err::<(BatteryStorage, StatData), SimError>(SimError::Misaligned),
        (date_grid_ok(date1@, date2@) && lambda@.len() == 24 && rates_ok(lambda@)
            && charging_station@.len() > 0 && fleet_inputs_present(charging_station@)
            && fleet_on_grid(charging_station@, start_hour(date1@), horizon_hours(date1@, date2@))
            && hour_grid_series(
            base_photovoltaic.params.irradiance@,
            start_hour(date1@),
            horizon_hours(date1@, date2@),
        ) && !irradiance_ok(*base_photovoltaic)) ==> r == Err::<
            (BatteryStorage, StatData),
            SimError,
        >(SimError::PowerOutOfRange),
        r != Err::<(BatteryStorage, StatData), SimError>(SimError::EmptyTrajectory),
        (date_grid_ok(date1@, date2@) && lambda@.len() == 24 && rates_ok(lambda@)
            && charging_station@.len() > 0 && fleet_inputs_present(charging_station@)
            && fleet_on_grid(charging_station@, start_hour(date1@), horizon_hours(date1@, date2@))
            && hour_grid_series(
            base_photovoltaic.params.irradiance@,
            start_hour(date1@),
            horizon_hours(date1@, date2@),
        ) && irradiance_ok(*base_photovoltaic) && all_rates_zero(lambda@)) ==> r is Ok,
        r is Ok ==> {
            let b = r->Ok_0.0;
            let s = r->Ok_0.1;
            let s0 = start_hour(date1@);
            let irr = base_photovoltaic.params.irradiance@;
            let cap = battery_storage.capacity_mwh();
            let stg = storage_of(b.battery_state);
            let ie = input_echo_of(b.battery_state);
            let oe = output_echo_of(b.battery_state);
            let fl = flags_of(b.battery_state);
            &&& date_grid_ok(date1@, date2@)
            &&& lambda@.len() == 24
            &&& rates_ok(lambda@)
            &&& charging_station@.len() > 0
            &&& fleet_inputs_present(charging_station@)
            &&& fleet_on_grid(charging_station@, s0, horizon_hours(date1@, date2@))
            &&& hour_grid_series(irr, s0, horizon_hours(date1@, date2@))
            &&& irradiance_ok(*base_photovoltaic)
            &&& b.capacity == battery_storage.capacity
            &&& b.watt_hours == battery_storage.watt_hours
            &&& trajectory_present(b.battery_state)
            &&& trajectory_aligned(b.battery_state)
            &&& stg.len() == horizon_hours(date1@, date2@)
            &&& ie.len() == stg.len()
            &&& oe.len() == stg.len()
            &&& fl.len() == stg.len()
            &&& forall|t: int| 0 <= t < stg.len() ==> (#[trigger] stg[t]).0 == s0 + t
            &&& forall|t: int|
                0 <= t < ie.len() ==> #[trigger] ie[t] == (
                    (s0 + t) as u64,
                    pv_mw(*base_photovoltaic, irr[t].1 as int) as i64,
                )
            &&& values_in_range(oe)
            &&& forall|t: int|
                0 <= t < oe.len() ==> (lambda@[t % 24] == 0 ==> (#[trigger] oe[t]).1 == 0)
            &&& forall|t: int|
                0 <= t < stg.len() ==> (#[trigger] stg[t]).1 == storage_at(
                    vals_of(ie),
                    vals_of(oe),
                    cap,
                    t,
                )
            &&& forall|t: int| 0 <= t < fl.len() ==> ((#[trigger] fl[t]).1 <==> stg[t].1 < 0)
            &&& s.chargers_count == charging_station@.len()
            &&& s.energy_system_size == base_photovoltaic.num_panels
                * base_photovoltaic.panel_watts
            &&& s.battery_size == cap
            &&& s.horizon_hours == stg.len()
            &&& s.deficit_hours == count_true(flag_bits(b.battery_state))
            &&& s.deficit_hours <= s.horizon_hours
            &&& s.max_output == seq_max(vals_of(stg))
            &&& s.average_usage == sum_of(lambda@) / 60
        },
{
    let (sm, dm) = match modulated_markov_poison_process(date1, date2, lambda, sampler) {
        Ok(p) => p,
        Err(e) => {
            return Err(e);
        },
    };
    let (h1, h2) = match parse_hour_range(date1, date2) {
        Ok(p) => p,
        Err(e) => {
            return Err(e);
        },
    };
    proof {
        let p1 = parsed_utc_seconds(date1@)->0;
        let p2 = parsed_utc_seconds(date2@)->0;
        lemma_fundamental_div_mod(p1, 3600);
        lemma_fundamental_div_mod(p2, 3600);
        assert(p1 / 3600 < p2 / 3600) by (nonlinear_arith)
            requires
                p1 == 3600 * (p1 / 3600),
                p2 == 3600 * (p2 / 3600),
                p1 < p2,
        ;
        lemma_fundamental_div_mod(horizon_hours(date1@, date2@), 24);
        assert(24 * (sm.days as int) == horizon_hours(date1@, date2@));
    }
    let hgrid: u64 = h2 - h1;
    let n = charging_station.len();
    if n == 0 {
        return Err(SimError::EmptyInput);
    }
    let mut k: usize = 0;
    while k < n
        invariant
            date_grid_ok(date1@, date2@),
            lambda@.len() == 24,
            rates_ok(lambda@),
            n == charging_station@.len(),
            n > 0,
            0 <= k <= n,
            forall|j: int|
                0 <= j < k ==> (#[trigger] charging_station@[j]).power.input_power_w_ts is Some,
        decreases n - k,
    {
        if charging_station[k].power.input_power_w_ts.is_none() {
            proof {
                assert(!(charging_station@[k as int].power.input_power_w_ts is Some));
            }
            return Err(SimError::MissingSeries);
        }
        k = k + 1;
    }
    let mut k: usize = 0;
    while k < n
        invariant
            date_grid_ok(date1@, date2@),
            lambda@.len() == 24,
            rates_ok(lambda@),
            n == charging_station@.len(),
            n > 0,
            fleet_inputs_present(charging_station@),
            h1 == start_hour(date1@),
            h1 + hgrid == h2,
            hgrid == horizon_hours(date1@, date2@),
            0 <= k <= n,
            forall|j: int|
                0 <= j < k ==> hour_grid_series(
                    input_of((#[trigger] charging_station@[j]).power),
                    h1 as int,
                    hgrid as int,
                ),
        decreases n - k,
    {
        let cs: &Vec<PowerPoint> = match &charging_station[k].power.input_power_w_ts {
            Some(v) => v,
            None => {
                proof {
                    assert(charging_station@[k as int].power.input_power_w_ts is Some);
                }
                return Err(SimError::MissingSeries);
            },
        };
        if !check_hour_grid(cs, h1, hgrid) {
            proof {
                assert(!hour_grid_series(
                    input_of(charging_station@[k as int].power),
                    h1 as int,
                    hgrid as int,
                ));
            }
            return Err(SimError::Misaligned);
        }
        k = k + 1;
    }
    if !check_hour_grid(&base_photovoltaic.params.irradiance, h1, hgrid) {
        return Err(SimError::Misaligned);
    }
    let generator = match base_photovoltaic.into_power_component() {
        Ok(v) => v,
        Err(e) => {
            return Err(e);
        },
    };
    let ghost zero_profile = all_rates_zero(lambda@);
    let mut comps: Vec<PowerComponent> = Vec::new();
    let mut k: usize = 0;
    while k < n
        invariant
            date_grid_ok(date1@, date2@),
            lambda@.len() == 24,
            rates_ok(lambda@),
            n == charging_station@.len(),
            n > 0,
            fleet_inputs_present(charging_station@),
            fleet_on_grid(charging_station@, h1 as int, hgrid as int),
            hour_grid_series(base_photovoltaic.params.irradiance@, h1 as int, hgrid as int),
            forall|j: int|
                0 <= j < charging_station@.len() ==> values_in_range(
                    input_of((#[trigger] charging_station@[j]).power),
                ),
            h1 == start_hour(date1@),
            h1 + hgrid == h2,
            hgrid == horizon_hours(date1@, date2@),
            hgrid <= MAX_HORIZON_HOURS,
            sm.wf(),
            dm.wf(),
            sm.days == dm.days,
            24 * (sm.days as int) == hgrid as int,
            forall|h: int, d: int|
                0 <= h < 24 && 0 <= d < sm.days ==> #[trigger] dm.cell(h, d) == h1 + d * 24 + h,
            forall|h: int, d: int|
                0 <= h < 24 && 0 <= d < sm.days ==> (lambda@[h] == 0 ==> #[trigger] sm.cell(h, d)
                    == 0),
            zero_profile == all_rates_zero(lambda@),
            0 <= k <= n,
            comps@.len() == k,
            forall|j: int| 0 <= j < k ==> (#[trigger] comps@[j]).input_power_w_ts is Some,
            forall|j: int| 0 <= j < k ==> values_in_range(input_of(#[trigger] comps@[j])),
            forall|j: int|
                0 <= j < k ==> hour_grid_series(
                    input_of(#[trigger] comps@[j]),
                    h1 as int,
                    hgrid as int,
                ),
            forall|j: int, t: int|
                0 <= j < k && 0 <= t < hgrid && lambda@[t % 24] == 0 ==> (#[trigger] input_of(
                    comps@[j],
                )[t]).1 == 0,
        decreases n - k,
    {
        let ghost cin = input_of(charging_station@[k as int].power);
        proof {
            assert(hour_grid_series(cin, h1 as int, hgrid as int));
            assert forall|t: int| 0 <= t < cin.len() implies (#[trigger] cin[t]).0 == dm.cell(
                t % 24,
                t / 24,
            ) by {
                lemma_fundamental_div_mod(t, 24);
                assert(0 <= t / 24 < sm.days) by (nonlinear_arith)
                    requires
                        t == 24 * (t / 24) + (t % 24),
                        0 <= t % 24 < 24,
                        0 <= t < 24 * (sm.days as int),
                ;
                assert(dm.cell(t % 24, t / 24) == h1 + (t / 24) * 24 + (t % 24));
            }
            assert(on_grid(cin, dm));
            if zero_profile {
                assert forall|t: int| 0 <= t < cin.len() implies #[trigger] weighted_mw(
                    cin[t].1 as int,
                    sm.cell(t % 24, t / 24),
                ) <= MAX_POWER_MW by {
                    lemma_fundamental_div_mod(t, 24);
                    assert(0 <= t / 24 < sm.days) by (nonlinear_arith)
                        requires
                            t == 24 * (t / 24) + (t % 24),
                            0 <= t % 24 < 24,
                            0 <= t < 24 * (sm.days as int),
                    ;
                    assert(lambda@[t % 24] == 0);
                    assert(sm.cell(t % 24, t / 24) == 0);
                    assert((cin[t].1 as int) * 0 == 0) by (nonlinear_arith);
                }
                assert(weighted_in_range(cin, sm));
            }
        }
        let pc = match apply_utilization(&charging_station[k], &sm, &dm) {
            Ok(v) => v,
            Err(e) => {
                return Err(e);
            },
        };
        proof {
            let wout = input_of(pc);
            assert(wout.len() == cin.len());
            assert forall|t: int| 0 <= t < wout.len() implies (#[trigger] wout[t]).0 == h1
                + t by {
                assert(wout[t].0 == cin[t].0);
            }
            assert(hour_grid_series(wout, h1 as int, hgrid as int));
            assert forall|t: int|
                0 <= t < wout.len() && lambda@[t % 24] == 0 implies (#[trigger] wout[t]).1
                == 0 by {
                lemma_fundamental_div_mod(t, 24);
                assert(0 <= t / 24 < sm.days) by (nonlinear_arith)
                    requires
                        t == 24 * (t / 24) + (t % 24),
                        0 <= t % 24 < 24,
                        0 <= t < 24 * (sm.days as int),
                ;
                assert(sm.cell(t % 24, t / 24) == 0);
                assert((cin[t].1 as int) * 0 == 0) by (nonlinear_arith);
                assert(weighted_mw(cin[t].1 as int, sm.cell(t % 24, t / 24)) == 0);
            }
        }
        comps.push(pc);
        k = k + 1;
    }
    proof {
        assert(all_have_input(comps@));
        let ref_s = input_of(comps@[0]);
        assert forall|j: int| 0 <= j < comps@.len() implies aligned(
            ref_s,
            input_of(#[trigger] comps@[j]),
        ) by {
            let sj = input_of(comps@[j]);
            assert(hour_grid_series(sj, h1 as int, hgrid as int));
            assert forall|t: int| 0 <= t < ref_s.len() implies ref_s[t].0 == (
            #[trigger] sj[t]).0 by {
                assert(ref_s[t].0 == h1 + t);
                assert(sj[t].0 == h1 + t);
            }
        }
        assert(all_aligned_with(comps@, ref_s));
        if zero_profile {
            assert forall|t: int| 0 <= t < hgrid implies #[trigger] col_sum(comps@, t)
                <= MAX_POWER_MW by {
                assert(lambda@[t % 24] == 0);
                assert forall|j: int| 0 <= j < comps@.len() implies input_of(
                    #[trigger] comps@[j],
                )[t].1 == 0 by {}
                lemma_sum_at_zero(comps@, comps@.len() as int, t);
            }
            assert(col_sums_in_range(comps@, ref_s.len() as int));
        }
    }
    let station = match PowerComponent::merge_power_components(&comps, 1) {
        Ok(v) => v,
        Err(e) => {
            return Err(e);
        },
    };
    proof {
        let g = output_of(generator);
        let u = input_of(station.demand);
        let ref_s = input_of(comps@[0]);
        let irr = base_photovoltaic.params.irradiance@;
        assert forall|t: int| 0 <= t < g.len() implies (#[trigger] g[t]).0 == u[t].0 by {
            assert(g[t].0 == irr[t].0);
            assert(irr[t].0 == h1 + t);
            assert(u[t].0 == ref_s[t].0);
            assert(ref_s[t].0 == h1 + t);
        }
        assert(aligned(g, u));
    }
    let bat = match battery_storage.update_power_component(&generator, &station.demand) {
        Ok(v) => v,
        Err(e) => {
            return Err(e);
        },
    };
    proof {
        let g = output_of(generator);
        let u = input_of(station.demand);
        let irr = base_photovoltaic.params.irradiance@;
        let stg = storage_of(bat.battery_state);
        let ie = input_echo_of(bat.battery_state);
        let oe = output_echo_of(bat.battery_state);
        assert forall|t: int| 0 <= t < stg.len() implies (#[trigger] stg[t]).0 == h1 + t by {
            assert(stg[t].0 == g[t].0);
            assert(g[t].0 == irr[t].0);
        }
        assert forall|t: int| 0 <= t < ie.len() implies #[trigger] ie[t] == (
            (h1 + t) as u64,
            pv_mw(*base_photovoltaic, irr[t].1 as int) as i64,
        ) by {
            assert(ie[t] == g[t]);
            assert(g[t] == (irr[t].0, pv_mw(*base_photovoltaic, irr[t].1 as int) as i64));
            assert(irr[t].0 == h1 + t);
        }
        assert(values_in_range(oe));
        assert forall|t: int|
            0 <= t < oe.len() && lambda@[t % 24] == 0 implies (#[trigger] oe[t]).1 == 0 by {
            assert(oe[t] == u[t]);
            assert(u[t].1 == col_sum(comps@, t));
            assert forall|j: int| 0 <= j < comps@.len() implies input_of(
                #[trigger] comps@[j],
            )[t].1 == 0 by {}
            lemma_sum_at_zero(comps@, comps@.len() as int, t);
        }
        assert(trajectory_aligned(bat.battery_state));
        assert(storage_of(bat.battery_state).len() > 0);
    }
    let stat = match gen_stat(&bat, base_photovoltaic, charging_station, lambda) {
        Ok(v) => v,
        Err(e) => {
            return Err(e);
        },
    };
    Ok((bat, stat))
}

} // verus!
