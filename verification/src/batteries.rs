//! The battery storage stepper: a single forward pass over aligned
//! generation and demand series that produces the storage trajectory, a
//! negative-storage (grid-needed) indicator series, and echoes of the two
//! inputs. Storage is clamped at the battery's rated capacity and is allowed
//! to go negative; a negative hour marks demand that the external grid must
//! serve.
use crate::power::{input_of, output_of, PowerComponent};
use crate::series::{aligned, check_aligned, vals_of, values_in_range, PowerPoint};
use crate::{SimError, MAX_CAPACITY_MWH, MAX_HORIZON_HOURS, MAX_POWER_MW};
use vstd::prelude::*;

verus! {

/// Clamps a candidate storage level at the battery's capacity.
pub open spec fn clamp_hi(c: int, cap: int) -> int {
    if c >= cap {
        cap
    } else {
        c
    }
}

/// The storage level after hour `t`: the clamped accumulation of generation
/// minus demand. There is no lower clamp; the level may go arbitrarily
/// negative.
pub open spec fn storage_at(g: Seq<int>, d: Seq<int>, cap: int, t: int) -> int
    decreases t,
{
    if t <= 0 {
        clamp_hi(g[0] - d[0], cap)
    } else {
        clamp_hi(storage_at(g, d, cap, t - 1) + g[t] - d[t], cap)
    }
}

/// The unclamped candidate for hour `t`: the previous level plus generation
/// minus demand.
pub open spec fn candidate_at(g: Seq<int>, d: Seq<int>, cap: int, t: int) -> int {
    if t <= 0 {
        g[0] - d[0]
    } else {
        storage_at(g, d, cap, t - 1) + g[t] - d[t]
    }
}

/// The upper-clamp invariant: the storage level never exceeds the capacity,
/// and it equals the capacity exactly when the unclamped candidate would
/// reach or exceed it.
pub proof fn lemma_storage_upper_clamp(g: Seq<int>, d: Seq<int>, cap: int, t: int)
    requires
        0 <= t,
    ensures
        storage_at(g, d, cap, t) <= cap,
        storage_at(g, d, cap, t) == cap <==> candidate_at(g, d, cap, t) >= cap,
{
    assert(storage_at(g, d, cap, t) == clamp_hi(candidate_at(g, d, cap, t), cap));
}

/// The trajectory is determined by its inputs: any two series that satisfy
/// the storage recurrence pointwise over the same generation, demand and
/// capacity are equal. Re-running the stepper on identical inputs therefore
/// reproduces the identical trajectory.
pub proof fn lemma_trajectory_deterministic(
    g: Seq<int>,
    d: Seq<int>,
    cap: int,
    s1: Seq<int>,
    s2: Seq<int>,
)
    requires
        s1.len() == s2.len(),
        forall|t: int| 0 <= t < s1.len() ==> s1[t] == storage_at(g, d, cap, t),
        forall|t: int| 0 <= t < s2.len() ==> s2[t] == storage_at(g, d, cap, t),
    ensures
        s1 == s2,
{
    assert(s1 =~= s2);
}

/// One run's mutable trajectory: aligned storage, input-echo, output-echo and
/// deficit-flag series, all sharing the run's timestamp grid. Empty until the
/// stepper fills it, then read-only.
#[derive(Clone, Debug)]
pub struct BatteryPowerComponent {
    pub storage: Option<Vec<PowerPoint>>,
    pub input_power_w_ts: Option<Vec<PowerPoint>>,
    pub output_power_w_ts: Option<Vec<PowerPoint>>,
    pub neg_stat_ts: Option<Vec<(u64, bool)>>,
}

/// The storage series of a trajectory, or the empty series when absent.
pub open spec fn storage_of(b: BatteryPowerComponent) -> Seq<PowerPoint> {
    match b.storage {
        Some(v) => v@,
        None => Seq::empty(),
    }
}

/// The input-echo series of a trajectory, or the empty series when absent.
pub open spec fn input_echo_of(b: BatteryPowerComponent) -> Seq<PowerPoint> {
    match b.input_power_w_ts {
        Some(v) => v@,
        None => Seq::empty(),
    }
}

/// The output-echo series of a trajectory, or the empty series when absent.
pub open spec fn output_echo_of(b: BatteryPowerComponent) -> Seq<PowerPoint> {
    match b.output_power_w_ts {
        Some(v) => v@,
        None => Seq::empty(),
    }
}

/// The deficit-flag series of a trajectory, or the empty series when absent.
pub open spec fn flags_of(b: BatteryPowerComponent) -> Seq<(u64, bool)> {
    match b.neg_stat_ts {
        Some(v) => v@,
        None => Seq::empty(),
    }
}

/// A battery: its static electrical configuration plus the trajectory of the
/// last simulation run. The usable energy capacity is
/// `capacity * watt_hours` milliwatt-hours.
#[derive(Clone, Debug)]
pub struct BatteryStorage {
    pub capacity: u64,
    pub watt_hours: u64,
    pub depth_of_discharge: u64,
    pub battery_system_voltage: u64,
    pub efficiency: u64,
    pub battery_state: BatteryPowerComponent,
}

impl BatteryStorage {
    /// The rated energy capacity in milliwatt-hours.
    pub open spec fn capacity_mwh(self) -> int {
        self.capacity * self.watt_hours
    }

    /// A well-formed configuration: a positive capacity that stays within the
    /// machine bound.
    pub open spec fn config_wf(self) -> bool {
        &&& self.capacity > 0
        &&& self.watt_hours > 0
        &&& self.capacity * self.watt_hours <= MAX_CAPACITY_MWH
    }

    /// Builds a battery with the given configuration and an empty trajectory.
    /// A zero or oversized capacity is a configuration error.
    pub fn new(
        capacity: u64,
        watt_hours: u64,
        depth_of_discharge: u64,
        battery_system_voltage: u64,
        efficiency: u64,
    ) -> (r: Result<BatteryStorage, SimError>)
        ensures
            r is Ok <==> (capacity > 0 && watt_hours > 0 && capacity * watt_hours
                <= MAX_CAPACITY_MWH),
            r is Err ==> r == Err::<BatteryStorage, SimError>(SimError::InvalidCapacity),
            r is Ok ==> {
                let b = r->Ok_0;
                &&& b.capacity == capacity
                &&& b.watt_hours == watt_hours
                &&& b.depth_of_discharge == depth_of_discharge
                &&& b.battery_system_voltage == battery_system_voltage
                &&& b.efficiency == efficiency
                &&& b.config_wf()
                &&& b.battery_state.storage is None
                &&& b.battery_state.input_power_w_ts is None
                &&& b.battery_state.output_power_w_ts is None
                &&& b.battery_state.neg_stat_ts is None
            },
    {
        if capacity == 0 || watt_hours == 0 {
            return Err(SimError::InvalidCapacity);
        }
        proof {
            assert((capacity as nat) * (watt_hours as nat)
                < 0x1_0000_0000_0000_0000_0000_0000_0000_0000) by (nonlinear_arith)
                requires
                    (capacity as nat) < 0x1_0000_0000_0000_0000,
                    (watt_hours as nat) < 0x1_0000_0000_0000_0000,
            ;
        }
        if (capacity as u128) * (watt_hours as u128) > MAX_CAPACITY_MWH as u128 {
            return Err(SimError::InvalidCapacity);
        }
        Ok(
            BatteryStorage {
                capacity,
                watt_hours,
                depth_of_discharge,
                battery_system_voltage,
                efficiency,
                battery_state: BatteryPowerComponent {
                    storage: None,
                    input_power_w_ts: None,
                    output_power_w_ts: None,
                    neg_stat_ts: None,
                },
            },
        )
    }

    /// Runs the storage recurrence over an aligned generation/demand pair and
    /// returns the battery with its trajectory filled in. The generation
    /// component must carry an output series and the demand component an
    /// input series, on one shared timestamp grid; a mismatch is refused, not
    /// truncated. The stage is pure: identical inputs yield an identical
    /// trajectory.
    pub fn update_power_component(
        self,
        generator: &PowerComponent,
        utility: &PowerComponent,
    ) -> (r: Result<BatteryStorage, SimError>)
        requires
            self.config_wf(),
            values_in_range(output_of(*generator)),
            values_in_range(input_of(*utility)),
            output_of(*generator).len() <= MAX_HORIZON_HOURS,
        ensures
            (generator.output_power_w_ts is None || utility.input_power_w_ts is None) <==> (r
                == Err::<BatteryStorage, SimError>(SimError::MissingSeries)),
            (generator.output_power_w_ts is Some && utility.input_power_w_ts is Some && !aligned(
                output_of(*generator),
                input_of(*utility),
            )) <==> (r == Err::<BatteryStorage, SimError>(SimError::Misaligned)),
            r is Ok <==> (generator.output_power_w_ts is Some && utility.input_power_w_ts is Some
                && aligned(output_of(*generator), input_of(*utility))),
            r is Ok ==> {
                let b = r->Ok_0;
                let g = output_of(*generator);
                let u = input_of(*utility);
                let gv = vals_of(g);
                let uv = vals_of(u);
                let cap = self.capacity_mwh();
                let st = storage_of(b.battery_state);
                let fl = flags_of(b.battery_state);
                &&& b.capacity == self.capacity
                &&& b.watt_hours == self.watt_hours
                &&& b.depth_of_discharge == self.depth_of_discharge
                &&& b.battery_system_voltage == self.battery_system_voltage
                &&& b.efficiency == self.efficiency
                &&& b.battery_state.storage is Some
                &&& b.battery_state.input_power_w_ts is Some
                &&& b.battery_state.output_power_w_ts is Some
                &&& b.battery_state.neg_stat_ts is Some
                &&& st.len() == g.len()
                &&& forall|t: int|
                    0 <= t < g.len() ==> (#[trigger] st[t]).0 == g[t].0 && st[t].1 == storage_at(
                        gv,
                        uv,
                        cap,
                        t,
                    )
                &&& input_echo_of(b.battery_state) == g
                &&& output_echo_of(b.battery_state) == u
                &&& fl.len() == g.len()
                &&& forall|t: int|
                    0 <= t < g.len() ==> (#[trigger] fl[t]).0 == g[t].0 && (fl[t].1 <==> storage_at(
                        gv,
                        uv,
                        cap,
                        t,
                    ) < 0)
            },
    {
        let gs: &Vec<PowerPoint> = match &generator.output_power_w_ts {
            Some(v) => v,
            None => {
                return Err(SimError::MissingSeries);
            },
        };
        let us: &Vec<PowerPoint> = match &utility.input_power_w_ts {
            Some(v) => v,
            None => {
                return Err(SimError::MissingSeries);
            },
        };
        if !check_aligned(gs, us) {
            return Err(SimError::Misaligned);
        }
        let cap_mwh: i64 = (self.capacity * self.watt_hours) as i64;
        let h = gs.len();
        let mut storage: Vec<PowerPoint> = Vec::new();
        let mut input: Vec<PowerPoint> = Vec::new();
        let mut output: Vec<PowerPoint> = Vec::new();
        let mut neg: Vec<(u64, bool)> = Vec::new();
        let mut prev: i64 = 0;
        let mut t: usize = 0;
        while t < h
            invariant
                gs@ == output_of(*generator),
                us@ == input_of(*utility),
                values_in_range(gs@),
                values_in_range(us@),
                aligned(gs@, us@),
                h == gs@.len(),
                h <= MAX_HORIZON_HOURS,
                self.config_wf(),
                cap_mwh == self.capacity_mwh(),
                0 <= t <= h,
                storage@.len() == t,
                input@.len() == t,
                output@.len() == t,
                neg@.len() == t,
                forall|j: int|
                    0 <= j < t ==> (#[trigger] storage@[j]).0 == gs@[j].0 && storage@[j].1
                        == storage_at(vals_of(gs@), vals_of(us@), cap_mwh as int, j),
                forall|j: int| 0 <= j < t ==> #[trigger] input@[j] == gs@[j],
                forall|j: int|
                    0 <= j < t ==> (#[trigger] output@[j]).0 == gs@[j].0 && output@[j].1
                        == us@[j].1,
                forall|j: int|
                    0 <= j < t ==> (#[trigger] neg@[j]).0 == gs@[j].0 && (neg@[j].1 <==> storage_at(
                        vals_of(gs@),
                        vals_of(us@),
                        cap_mwh as int,
                        j,
                    ) < 0),
                t == 0 ==> prev == 0,
                t > 0 ==> prev == storage_at(vals_of(gs@), vals_of(us@), cap_mwh as int, t - 1),
                -((t as int) * (MAX_POWER_MW as int)) <= prev <= cap_mwh,
            decreases h - t,
        {
            let gval: i64 = gs[t].1;
            let uval: i64 = us[t].1;
            let cand: i64 = prev + gval - uval;
            let s_t: i64 = if cand >= cap_mwh {
                cap_mwh
            } else {
                cand
            };
            proof {
                assert(vals_of(gs@)[t as int] == gval as int);
                assert(vals_of(us@)[t as int] == uval as int);
                assert(s_t == storage_at(vals_of(gs@), vals_of(us@), cap_mwh as int, t as int));
            }
            storage.push((gs[t].0, s_t));
            input.push((gs[t].0, gval));
            output.push((gs[t].0, uval));
            neg.push((gs[t].0, s_t < 0));
            prev = s_t;
            t = t + 1;
        }
        proof {
            assert(input@ =~= gs@);
            assert(output@ =~= us@);
        }
        Ok(
            BatteryStorage {
                capacity: self.capacity,
                watt_hours: self.watt_hours,
                depth_of_discharge: self.depth_of_discharge,
                battery_system_voltage: self.battery_system_voltage,
                efficiency: self.efficiency,
                battery_state: BatteryPowerComponent {
                    storage: Some(storage),
                    input_power_w_ts: Some(input),
                    output_power_w_ts: Some(output),
                    neg_stat_ts: Some(neg),
                },
            },
        )
    }
}

/// All four trajectory series share one timestamp grid.
pub open spec fn trajectory_aligned(b: BatteryPowerComponent) -> bool {
    let st = storage_of(b);
    let ie = input_echo_of(b);
    let oe = output_echo_of(b);
    let fl = flags_of(b);
    &&& ie.len() == st.len()
    &&& oe.len() == st.len()
    &&& fl.len() == st.len()
    &&& forall|t: int|
        0 <= t < st.len() ==> (#[trigger] ie[t]).0 == st[t].0 && oe[t].0 == st[t].0 && fl[t].0
            == st[t].0
}

/// All four trajectory series are present.
pub open spec fn trajectory_present(b: BatteryPowerComponent) -> bool {
    &&& b.storage is Some
    &&& b.input_power_w_ts is Some
    &&& b.output_power_w_ts is Some
    &&& b.neg_stat_ts is Some
}

/// Zips the four trajectory series of a battery into one row per timestamp:
/// `(timestamp, storage, input, output, deficit)`. The alignment of all four
/// series is checked here, once, for every consumer that walks the
/// trajectory; a missing series or a timestamp mismatch is an error.
pub fn trajectory_rows(batt: &BatteryStorage) -> (r: Result<
    Vec<(u64, i64, i64, i64, bool)>,
    SimError,
>)
    ensures
        !trajectory_present(batt.battery_state) <==> (r == Err::<
            Vec<(u64, i64, i64, i64, bool)>,
            SimError,
        >(SimError::MissingSeries)),
        (trajectory_present(batt.battery_state) && !trajectory_aligned(batt.battery_state)) <==> (r
            == Err::<Vec<(u64, i64, i64, i64, bool)>, SimError>(SimError::Misaligned)),
        r is Ok <==> (trajectory_present(batt.battery_state) && trajectory_aligned(
            batt.battery_state,
        )),
        r is Ok ==> {
            let st = storage_of(batt.battery_state);
            let ie = input_echo_of(batt.battery_state);
            let oe = output_echo_of(batt.battery_state);
            let fl = flags_of(batt.battery_state);
            let rows = r->Ok_0@;
            &&& rows.len() == st.len()
            &&& forall|t: int|
                0 <= t < st.len() ==> #[trigger] rows[t] == (
                    st[t].0,
                    st[t].1,
                    ie[t].1,
                    oe[t].1,
                    fl[t].1,
                )
        },
{
    let st: &Vec<PowerPoint> = match &batt.battery_state.storage {
        Some(v) => v,
        None => {
            return Err(SimError::MissingSeries);
        },
    };
    let ie: &Vec<PowerPoint> = match &batt.battery_state.input_power_w_ts {
        Some(v) => v,
        None => {
            return Err(SimError::MissingSeries);
        },
    };
    let oe: &Vec<PowerPoint> = match &batt.battery_state.output_power_w_ts {
        Some(v) => v,
        None => {
            return Err(SimError::MissingSeries);
        },
    };
    let fl: &Vec<(u64, bool)> = match &batt.battery_state.neg_stat_ts {
        Some(v) => v,
        None => {
            return Err(SimError::MissingSeries);
        },
    };
    let n = st.len();
    if ie.len() != n || oe.len() != n || fl.len() != n {
        return Err(SimError::Misaligned);
    }
    let mut rows: Vec<(u64, i64, i64, i64, bool)> = Vec::new();
    let mut t: usize = 0;
    while t < n
        invariant
            st@ == storage_of(batt.battery_state),
            ie@ == input_echo_of(batt.battery_state),
            oe@ == output_echo_of(batt.battery_state),
            fl@ == flags_of(batt.battery_state),
            n == st@.len(),
            ie@.len() == n,
            oe@.len() == n,
            fl@.len() == n,
            0 <= t <= n,
            rows@.len() == t,
            forall|j: int|
                0 <= j < t ==> (#[trigger] ie@[j]).0 == st@[j].0 && oe@[j].0 == st@[j].0
                    && fl@[j].0 == st@[j].0,
            forall|j: int|
                0 <= j < t ==> #[trigger] rows@[j] == (
                    st@[j].0,
                    st@[j].1,
                    ie@[j].1,
                    oe@[j].1,
                    fl@[j].1,
                ),
        decreases n - t,
    {
        if ie[t].0 != st[t].0 || oe[t].0 != st[t].0 || fl[t].0 != st[t].0 {
            return Err(SimError::Misaligned);
        }
        proof {
            assert forall|j: int|
                0 <= j < t + 1 implies (#[trigger] ie@[j]).0 == st@[j].0 && oe@[j].0 == st@[j].0
                && fl@[j].0 == st@[j].0 by {
                if j == t {
                    assert(ie@[j].0 == st@[j].0 && oe@[j].0 == st@[j].0 && fl@[j].0 == st@[j].0);
                }
            }
        }
        rows.push((st[t].0, st[t].1, ie[t].1, oe[t].1, fl[t].1));
        t = t + 1;
    }
    Ok(rows)
}

} // verus!

