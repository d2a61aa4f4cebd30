//! The statistics aggregator: a pure reduction of one simulation run's
//! trajectory into a fixed-width summary record. The deficit share is kept
//! as the exact pair (deficit hours, horizon hours) rather than a rounded
//! ratio.
use crate::batteries::{
    flags_of, storage_of, trajectory_aligned, trajectory_present, trajectory_rows, BatteryStorage,
};
use crate::chargers::Charger;
use crate::photovoltaic::PvSystem;
use crate::series::vals_of;
use crate::{SimError, MAX_RATE_MILLI};
use vstd::prelude::*;

verus! {

/// How many entries of a flag sequence are set.
pub open spec fn count_true(s: Seq<bool>) -> nat
    decreases s.len(),
{
    if s.len() == 0 {
        0
    } else {
        count_true(s.drop_last()) + if s.last() {
            1nat
        } else {
            0nat
        }
    }
}

/// No more flags are set than there are flags.
pub proof fn lemma_count_true_le_len(s: Seq<bool>)
    ensures
        count_true(s) <= s.len(),
    decreases s.len(),
{
    if s.len() > 0 {
        lemma_count_true_le_len(s.drop_last());
    }
}

/// The largest value of a non-empty sequence.
pub open spec fn seq_max(s: Seq<int>) -> int
    recommends
        s.len() > 0,
    decreases s.len(),
{
    if s.len() <= 1 {
        s[0]
    } else if s.last() >= seq_max(s.drop_last()) {
        s.last()
    } else {
        seq_max(s.drop_last())
    }
}

/// The sum of a rate profile.
pub open spec fn sum_of(s: Seq<i64>) -> int
    decreases s.len(),
{
    if s.len() == 0 {
        0
    } else {
        sum_of(s.drop_last()) + s.last()
    }
}

/// One run's summary record: static configuration echoes, the exact
/// deficit share as (deficit hours, horizon hours), the peak storage level
/// in milliwatt-hours, and the mean arrival rate in milli-arrivals per
/// minute.
#[derive(Clone, Copy, Debug, PartialEq, Eq, Structural)]
pub struct StatData {
    pub chargers_count: usize,
    pub energy_system_size: u64,
    pub battery_size: u64,
    pub deficit_hours: u64,
    pub horizon_hours: u64,
    pub max_output: i64,
    pub average_usage: u64,
}

/// The deficit flags of a trajectory, as bare booleans.
pub open spec fn flag_bits(b: crate::batteries::BatteryPowerComponent) -> Seq<bool> {
    flags_of(b).map_values(|p: (u64, bool)| p.1)
}

/// Reduces one run's trajectory to its summary record: the count of hours
/// whose deficit flag is set (never more than the horizon), the peak
/// storage level, the static sizes of the fleet, the photovoltaic system
/// and the battery, and the profile's mean arrival rate `sum(lambda)/60`.
/// An empty trajectory has no peak and is refused.
pub fn gen_stat(
    batt_system: &BatteryStorage,
    pv_system: &PvSystem,
    ev_chargers: &Vec<Charger>,
    lamb_vec: &Vec<i64>,
) -> (r: Result<StatData, SimError>)
    requires
        batt_system.config_wf(),
        pv_system.ratings_wf(),
        lamb_vec@.len() <= 24,
        forall|i: int| 0 <= i < lamb_vec@.len() ==> 0 <= #[trigger] lamb_vec@[i] <= MAX_RATE_MILLI,
    ensures
        !trajectory_present(batt_system.battery_state) <==> (r == Err::<StatData, SimError>(
            SimError::MissingSeries,
        )),
        (trajectory_present(batt_system.battery_state) && !trajectory_aligned(
            batt_system.battery_state,
        )) <==> (r == Err::<StatData, SimError>(SimError::Misaligned)),
        (trajectory_present(batt_system.battery_state) && trajectory_aligned(
            batt_system.battery_state,
        ) && storage_of(batt_system.battery_state).len() == 0) <==> (r == Err::<
            StatData,
            SimError,
        >(SimError::EmptyTrajectory)),
        r is Ok <==> (trajectory_present(batt_system.battery_state) && trajectory_aligned(
            batt_system.battery_state,
        ) && storage_of(batt_system.battery_state).len() > 0),
        r is Ok ==> {
            let st = storage_of(batt_system.battery_state);
            let s = r->Ok_0;
            &&& s.chargers_count == ev_chargers@.len()
            &&& s.energy_system_size == pv_system.num_panels * pv_system.panel_watts
            &&& s.battery_size == batt_system.capacity * batt_system.watt_hours
            &&& s.deficit_hours == count_true(flag_bits(batt_system.battery_state))
            &&& s.horizon_hours == st.len()
            &&& s.deficit_hours <= s.horizon_hours
            &&& s.max_output == seq_max(vals_of(st))
            &&& s.average_usage == sum_of(lamb_vec@) / 60
        },
{
    let rows = match trajectory_rows(batt_system) {
        Ok(v) => v,
        Err(e) => {
            return Err(e);
        },
    };
    let n = rows.len();
    if n == 0 {
        return Err(SimError::EmptyTrajectory);
    }
    let ghost st = storage_of(batt_system.battery_state);
    let ghost fb = flag_bits(batt_system.battery_state);
    let mut deficit: u64 = 0;
    let mut peak: i64 = rows[0].1;
    proof {
        assert(vals_of(st).take(1) =~= seq![vals_of(st)[0]]);
        assert(fb.take(0) =~= Seq::<bool>::empty());
    }
    let mut t: usize = 0;
    while t < n
        invariant
            st == storage_of(batt_system.battery_state),
            fb == flag_bits(batt_system.battery_state),
            n == rows@.len(),
            n == st.len(),
            n == fb.len(),
            n > 0,
            forall|j: int|
                0 <= j < n ==> #[trigger] rows@[j] == (
                    st[j].0,
                    st[j].1,
                    crate::batteries::input_echo_of(batt_system.battery_state)[j].1,
                    crate::batteries::output_echo_of(batt_system.battery_state)[j].1,
                    flags_of(batt_system.battery_state)[j].1,
                ),
            0 <= t <= n,
            deficit == count_true(fb.take(t as int)),
            deficit <= t,
            t == 0 ==> peak == st[0].1,
            t > 0 ==> peak == seq_max(vals_of(st).take(t as int)),
        decreases n - t,
    {
        proof {
            assert(fb.take(t as int + 1).drop_last() =~= fb.take(t as int));
            assert(fb.take(t as int + 1).last() == fb[t as int]);
            assert(fb[t as int] == flags_of(batt_system.battery_state)[t as int].1);
            if t > 0 {
                assert(vals_of(st).take(t as int + 1).drop_last() =~= vals_of(st).take(t as int));
            } else {
                assert(vals_of(st).take(1) =~= seq![vals_of(st)[0]]);
            }
        }
        if rows[t].4 {
            deficit = deficit + 1;
        }
        let v: i64 = rows[t].1;
        if t == 0 || v > peak {
            peak = v;
        }
        t = t + 1;
    }
    let mut lam_sum: i64 = 0;
    let mut i: usize = 0;
    proof {
        assert(lamb_vec@.take(0) =~= Seq::<i64>::empty());
    }
    while i < lamb_vec.len()
        invariant
            lamb_vec@.len() <= 24,
            forall|j: int|
                0 <= j < lamb_vec@.len() ==> 0 <= #[trigger] lamb_vec@[j] <= MAX_RATE_MILLI,
            0 <= i <= lamb_vec@.len(),
            lam_sum == sum_of(lamb_vec@.take(i as int)),
            0 <= lam_sum <= (i as int) * MAX_RATE_MILLI,
        decreases lamb_vec@.len() - i,
    {
        proof {
            assert(lamb_vec@.take(i as int + 1).drop_last() =~= lamb_vec@.take(i as int));
        }
        lam_sum = lam_sum + lamb_vec[i];
        i = i + 1;
    }
    proof {
        assert(lamb_vec@.take(lamb_vec@.len() as int) =~= lamb_vec@);
        lemma_count_true_le_len(fb.take(n as int));
        assert(fb.take(n as int) =~= fb);
        assert(vals_of(st).take(n as int) =~= vals_of(st));
    }
    let average_usage: u64 = (lam_sum / 60) as u64;
    proof {
        assert((pv_system.num_panels as int) * (pv_system.panel_watts as int) <= 0x100_0000_0000)
            by (nonlinear_arith)
            requires
                pv_system.num_panels <= 0x10_0000,
                pv_system.panel_watts <= 0x10_0000,
        ;
    }
    Ok(
        StatData {
            chargers_count: ev_chargers.len(),
            energy_system_size: pv_system.num_panels * pv_system.panel_watts,
            battery_size: batt_system.capacity * batt_system.watt_hours,
            deficit_hours: deficit,
            horizon_hours: n as u64,
            max_output: peak,
            average_usage,
        },
    )
}

} // verus!
