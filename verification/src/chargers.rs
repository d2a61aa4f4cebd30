//! The EV charger fleet model. Each charger carries static electrical
//! ratings from which one constant hourly input/output power pair is derived
//! via the three-phase power formula and replicated across the run's
//! timestamp range; utilization then scales the input side by the sampled
//! session count of each hour.
use crate::power::{input_of, three_phase_mw, PowerComponent};
use crate::series::{values_in_range, PowerPoint};
use crate::time_processes::{
    horizon_hours, parse_hour_range, range_ok, start_hour, DateMatrix, SampleMatrix,
};
use crate::{SimError, MAX_HORIZON_HOURS, MAX_POWER_MW};
use vstd::arithmetic::div_mod::lemma_fundamental_div_mod;
use vstd::prelude::*;

verus! {

/// One EV charger: static electrical ratings plus the power component its
/// rated draw generates. Voltages are whole volts, currents whole amperes,
/// and the power factor and efficiency are scaled by 1000.
#[derive(Clone, Debug)]
pub struct Charger {
    pub maximum_power_w: u64,
    pub output_voltage_min_vdc: u64,
    pub output_voltage_max_vdc: u64,
    pub max_output_current_a: u64,
    pub input_voltage_vac: u64,
    pub input_frequency_hz: u16,
    pub fla_a: u64,
    pub breaker_rating_a: u16,
    pub rated_power_kva: u64,
    pub power_factor_at_full_load: u64,
    pub efficiency_at_nominal_power: u64,
    pub power: PowerComponent,
}

impl Charger {
    /// The ratings that feed the power formula stay within its bounds.
    pub open spec fn ratings_wf(self) -> bool {
        &&& self.output_voltage_max_vdc <= 0x10_0000
        &&& self.max_output_current_a <= 0x10_0000
        &&& self.input_voltage_vac <= 0x10_0000
        &&& self.fla_a <= 0x10_0000
        &&& self.power_factor_at_full_load <= 1000
        &&& self.efficiency_at_nominal_power <= 1000
    }

    /// The charger's constant input power draw, in milliwatts.
    pub open spec fn input_power_mw(self) -> nat {
        three_phase_mw(
            self.input_voltage_vac as nat,
            self.fla_a as nat,
            self.efficiency_at_nominal_power as nat,
        )
    }

    /// The charger's constant output power, in milliwatts.
    pub open spec fn output_power_mw(self) -> nat {
        three_phase_mw(
            self.output_voltage_max_vdc as nat,
            self.max_output_current_a as nat,
            self.power_factor_at_full_load as nat,
        )
    }

    /// Builds a charger from its rating sheet, with no series computed yet.
    pub fn new(
        maximum_power_w: u64,
        output_voltage_min_vdc: u64,
        output_voltage_max_vdc: u64,
        max_output_current_a: u64,
        input_voltage_vac: u64,
        input_frequency_hz: u16,
        fla_a: u64,
        breaker_rating_a: u16,
        rated_power_kva: u64,
        power_factor_at_full_load: u64,
        efficiency_at_nominal_power: u64,
    ) -> (r: Self)
        requires
            output_voltage_max_vdc <= 0x10_0000,
            max_output_current_a <= 0x10_0000,
            input_voltage_vac <= 0x10_0000,
            fla_a <= 0x10_0000,
            power_factor_at_full_load <= 1000,
            efficiency_at_nominal_power <= 1000,
        ensures
            r.maximum_power_w == maximum_power_w,
            r.output_voltage_min_vdc == output_voltage_min_vdc,
            r.output_voltage_max_vdc == output_voltage_max_vdc,
            r.max_output_current_a == max_output_current_a,
            r.input_voltage_vac == input_voltage_vac,
            r.input_frequency_hz == input_frequency_hz,
            r.fla_a == fla_a,
            r.breaker_rating_a == breaker_rating_a,
            r.rated_power_kva == rated_power_kva,
            r.power_factor_at_full_load == power_factor_at_full_load,
            r.efficiency_at_nominal_power == efficiency_at_nominal_power,
            r.power.input_power_w_ts is None,
            r.power.output_power_w_ts is None,
            r.ratings_wf(),
    {
        Self {
            maximum_power_w,
            output_voltage_min_vdc,
            output_voltage_max_vdc,
            max_output_current_a,
            input_voltage_vac,
            input_frequency_hz,
            fla_a,
            breaker_rating_a,
            rated_power_kva,
            power_factor_at_full_load,
            efficiency_at_nominal_power,
            power: PowerComponent { input_power_w_ts: None, output_power_w_ts: None },
        }
    }

    /// Fills the charger's power component with its constant rated draw,
    /// one point per hour of `[date1, date2)`: the input side from the AC
    /// ratings, the output side from the DC ratings. The range must be a
    /// positive whole number of hours within the machine horizon, and the
    /// rated powers must stay within the power bound.
    pub fn add_input_power_ts(&mut self, date1: &str, date2: &str) -> (r: Result<(), SimError>)
        requires
            old(self).ratings_wf(),
        ensures
            (!range_ok(date1@, date2@) || (range_ok(date1@, date2@) && horizon_hours(
                date1@,
                date2@,
            ) > MAX_HORIZON_HOURS)) <==> (r == Err::<(), SimError>(SimError::BadDateRange)),
            (range_ok(date1@, date2@) && horizon_hours(date1@, date2@) <= MAX_HORIZON_HOURS && (
            old(self).input_power_mw() > MAX_POWER_MW || old(self).output_power_mw()
                > MAX_POWER_MW)) <==> (r == Err::<(), SimError>(SimError::PowerOutOfRange)),
            r is Ok <==> (range_ok(date1@, date2@) && horizon_hours(date1@, date2@)
                <= MAX_HORIZON_HOURS && old(self).input_power_mw() <= MAX_POWER_MW && old(
                self,
            ).output_power_mw() <= MAX_POWER_MW),
            r is Err ==> *final(self) == *old(self),
            r is Ok ==> {
                let h = horizon_hours(date1@, date2@);
                let s0 = start_hour(date1@);
                let ip = input_of(final(self).power);
                let op = crate::power::output_of(final(self).power);
                &&& final(self).power.input_power_w_ts is Some
                &&& final(self).power.output_power_w_ts is Some
                &&& ip.len() == h
                &&& op.len() == h
                &&& forall|t: int|
                    0 <= t < h ==> #[trigger] ip[t] == (
                        (s0 + t) as u64,
                        old(self).input_power_mw() as i64,
                    )
                &&& forall|t: int|
                    0 <= t < h ==> #[trigger] op[t] == (
                        (s0 + t) as u64,
                        old(self).output_power_mw() as i64,
                    )
                &&& final(self).maximum_power_w == old(self).maximum_power_w
                &&& final(self).output_voltage_min_vdc == old(self).output_voltage_min_vdc
                &&& final(self).output_voltage_max_vdc == old(self).output_voltage_max_vdc
                &&& final(self).max_output_current_a == old(self).max_output_current_a
                &&& final(self).input_voltage_vac == old(self).input_voltage_vac
                &&& final(self).input_frequency_hz == old(self).input_frequency_hz
                &&& final(self).fla_a == old(self).fla_a
                &&& final(self).breaker_rating_a == old(self).breaker_rating_a
                &&& final(self).rated_power_kva == old(self).rated_power_kva
                &&& final(self).power_factor_at_full_load == old(self).power_factor_at_full_load
                &&& final(self).efficiency_at_nominal_power == old(
                    self,
                ).efficiency_at_nominal_power
            },
    {
        let (h1, h2) = match parse_hour_range(date1, date2) {
            Ok(p) => p,
            Err(e) => {
                return Err(e);
            },
        };
        proof {
            let p1 = crate::time_processes::parsed_utc_seconds(date1@)->0;
            let p2 = crate::time_processes::parsed_utc_seconds(date2@)->0;
            lemma_fundamental_div_mod(p1, 3600);
            lemma_fundamental_div_mod(p2, 3600);
            assert(p1 / 3600 < p2 / 3600) by (nonlinear_arith)
                requires
                    p1 == 3600 * (p1 / 3600),
                    p2 == 3600 * (p2 / 3600),
                    p1 < p2,
            ;
        }
        let horizon: u64 = h2 - h1;
        if horizon > MAX_HORIZON_HOURS {
            return Err(SimError::BadDateRange);
        }
        let input_power_mw: u64 = match PowerComponent::power(
            self.input_voltage_vac,
            self.fla_a,
            self.efficiency_at_nominal_power,
        ) {
            Ok(v) => v,
            Err(e) => {
                return Err(e);
            },
        };
        let output_power_mw: u64 = match PowerComponent::power(
            self.output_voltage_max_vdc,
            self.max_output_current_a,
            self.power_factor_at_full_load,
        ) {
            Ok(v) => v,
            Err(e) => {
                return Err(e);
            },
        };
        if input_power_mw > (MAX_POWER_MW as u64) || output_power_mw > (MAX_POWER_MW as u64) {
            return Err(SimError::PowerOutOfRange);
        }
        let mut input_power_w_ts: Vec<PowerPoint> = Vec::new();
        let mut output_power_w_ts: Vec<PowerPoint> = Vec::new();
        let mut i: u64 = 0;
        while i < horizon
            invariant
                horizon == horizon_hours(date1@, date2@),
                h1 == start_hour(date1@),
                h1 + horizon == h2,
                input_power_mw <= MAX_POWER_MW,
                output_power_mw <= MAX_POWER_MW,
                0 <= i <= horizon,
                input_power_w_ts@.len() == i,
                output_power_w_ts@.len() == i,
                forall|t: int|
                    0 <= t < i ==> #[trigger] input_power_w_ts@[t] == (
                        (h1 + t) as u64,
                        input_power_mw as i64,
                    ),
                forall|t: int|
                    0 <= t < i ==> #[trigger] output_power_w_ts@[t] == (
                        (h1 + t) as u64,
                        output_power_mw as i64,
                    ),
            decreases horizon - i,
        {
            input_power_w_ts.push((h1 + i, input_power_mw as i64));
            output_power_w_ts.push((h1 + i, output_power_mw as i64));
            i = i + 1;
        }
        self.power.input_power_w_ts = Some(input_power_w_ts);
        self.power.output_power_w_ts = Some(output_power_w_ts);
        Ok(())
    }
}


/// Scales one charger's constant input draw by the sampled utilization of
/// each hour: the weighted input power at step `t` is
/// `input[t] * count(hour-of-day, day) / 60`, the count taken from the
/// sample matrix cell that step `t` falls in. The charger's series must sit
/// exactly on the date matrix's grid; the result carries the weighted input
/// side only.
pub fn apply_utilization(charger: &Charger, sm: &SampleMatrix, dm: &DateMatrix) -> (r: Result<
    PowerComponent,
    SimError,
>)
    requires
        sm.wf(),
        dm.wf(),
        sm.days == dm.days,
        24 * (sm.days as int) <= MAX_HORIZON_HOURS,
        values_in_range(input_of(charger.power)),
    ensures
        (charger.power.input_power_w_ts is None) <==> (r == Err::<PowerComponent, SimError>(
            SimError::MissingSeries,
        )),
        (charger.power.input_power_w_ts is Some && !on_grid(input_of(charger.power), *dm)) <==> (r
            == Err::<PowerComponent, SimError>(SimError::Misaligned)),
        (charger.power.input_power_w_ts is Some && on_grid(input_of(charger.power), *dm)
            && !weighted_in_range(input_of(charger.power), *sm)) <==> (r == Err::<
            PowerComponent,
            SimError,
        >(SimError::PowerOutOfRange)),
        r is Ok <==> (charger.power.input_power_w_ts is Some && on_grid(
            input_of(charger.power),
            *dm,
        ) && weighted_in_range(input_of(charger.power), *sm)),
        r is Ok ==> {
            let cin = input_of(charger.power);
            let wout = input_of(r->Ok_0);
            &&& r->Ok_0.input_power_w_ts is Some
            &&& r->Ok_0.output_power_w_ts is None
            &&& wout.len() == cin.len()
            &&& forall|t: int|
                0 <= t < cin.len() ==> #[trigger] wout[t] == (
                    cin[t].0,
                    weighted_mw(cin[t].1 as int, sm.cell(t % 24, t / 24)) as i64,
                )
            &&& values_in_range(wout)
        },
{
    let cs: &Vec<PowerPoint> = match &charger.power.input_power_w_ts {
        Some(v) => v,
        None => {
            return Err(SimError::MissingSeries);
        },
    };
    let days = sm.days;
    let h: usize = 24 * days;
    if cs.len() != h {
        return Err(SimError::Misaligned);
    }
    let mut t: usize = 0;
    while t < h
        invariant
            sm.wf(),
            dm.wf(),
            sm.days == dm.days,
            days == sm.days,
            h == 24 * days,
            h <= MAX_HORIZON_HOURS,
            cs@ == input_of(charger.power),
            cs@.len() == h,
            0 <= t <= h,
            forall|j: int| 0 <= j < t ==> (#[trigger] cs@[j]).0 == dm.cell(j % 24, j / 24),
        decreases h - t,
    {
        let hh: usize = t % 24;
        let dd: usize = t / 24;
        proof {
            lemma_fundamental_div_mod(t as int, 24);
            assert(dd < days) by (nonlinear_arith)
                requires
                    t as int == 24 * (t as int / 24) + (t as int % 24),
                    0 <= t as int % 24 < 24,
                    t < 24 * days,
                    dd == t as int / 24,
            ;
        }
        if cs[t].0 != dm.get(hh, dd) {
            return Err(SimError::Misaligned);
        }
        t = t + 1;
    }
    let mut out: Vec<PowerPoint> = Vec::new();
    let mut t: usize = 0;
    while t < h
        invariant
            sm.wf(),
            dm.wf(),
            sm.days == dm.days,
            days == sm.days,
            h == 24 * days,
            h <= MAX_HORIZON_HOURS,
            cs@ == input_of(charger.power),
            values_in_range(cs@),
            cs@.len() == h,
            on_grid(cs@, *dm),
            0 <= t <= h,
            out@.len() == t,
            forall|j: int|
                0 <= j < t ==> #[trigger] out@[j] == (
                    cs@[j].0,
                    weighted_mw(cs@[j].1 as int, sm.cell(j % 24, j / 24)) as i64,
                ),
            forall|j: int|
                0 <= j < t ==> #[trigger] weighted_mw(cs@[j].1 as int, sm.cell(j % 24, j / 24))
                    <= MAX_POWER_MW,
            forall|j: int| 0 <= j < t ==> 0 <= (#[trigger] out@[j]).1 <= MAX_POWER_MW,
        decreases h - t,
    {
        let hh: usize = t % 24;
        let dd: usize = t / 24;
        proof {
            lemma_fundamental_div_mod(t as int, 24);
            assert(dd < days) by (nonlinear_arith)
                requires
                    t as int == 24 * (t as int / 24) + (t as int % 24),
                    0 <= t as int % 24 < 24,
                    t < 24 * days,
                    dd == t as int / 24,
            ;
        }
        let c: u64 = sm.get(hh, dd);
        let v: i64 = cs[t].1;
        proof {
            assert((v as nat) * (c as nat) < 0x1_0000_0000_0000_0000_0000_0000_0000_0000)
                by (nonlinear_arith)
                requires
                    0 <= (v as int) < 0x8000_0000_0000_0000,
                    (c as nat) < 0x1_0000_0000_0000_0000,
            ;
        }
        let w: u128 = ((v as u128) * (c as u128)) / 60;
        proof {
            assert(w == weighted_mw(v as int, c));
        }
        if w > (MAX_POWER_MW as u128) {
            return Err(SimError::PowerOutOfRange);
        }
        out.push((cs[t].0, w as i64));
        t = t + 1;
    }
    Ok(PowerComponent { input_power_w_ts: Some(out), output_power_w_ts: None })
}

/// The utilization-weighted power: `v * count / 60`, rounded down to a
/// whole milliwatt. The division converts the per-minute-calibrated count
/// to the per-hour slot.
pub open spec fn weighted_mw(v: int, c: u64) -> int {
    (v * c) / 60
}

/// Every point of the series sits on the date grid: step `t` carries the
/// timestamp of the matrix cell `(t % 24, t / 24)`.
pub open spec fn on_grid(s: Seq<PowerPoint>, dm: DateMatrix) -> bool {
    &&& s.len() == 24 * (dm.days as int)
    &&& forall|t: int| 0 <= t < s.len() ==> (#[trigger] s[t]).0 == dm.cell(t % 24, t / 24)
}

/// Every utilization-weighted value stays within the power bound.
pub open spec fn weighted_in_range(s: Seq<PowerPoint>, sm: SampleMatrix) -> bool {
    forall|t: int|
        0 <= t < s.len() ==> #[trigger] weighted_mw(s[t].1 as int, sm.cell(t % 24, t / 24))
            <= MAX_POWER_MW
}

} // verus!
