//! The photovoltaic generator model: panel-level irradiance records scaled
//! by panel count and nameplate wattage into a generation power component.
//! The irradiance table itself is a collaborator input, handed in as plain
//! `(hour, milli-intensity)` records; reading it from disk is the caller's
//! concern.
use crate::power::PowerComponent;
use crate::series::{values_in_range, PowerPoint};
use crate::{SimError, MAX_POWER_MW};
use vstd::prelude::*;

verus! {

/// The collaborator-supplied irradiance table: one record per hour,
/// `(hours since the epoch, generation intensity scaled by 1000)`.
#[derive(Clone, Debug)]
pub struct SolarParams {
    pub irradiance: Vec<(u64, i64)>,
}

/// A photovoltaic system: panel fleet ratings plus the irradiance table the
/// generation series is derived from. Lengths are millimetres, the
/// transformer efficiency is scaled by 1000.
#[derive(Clone, Debug)]
pub struct PvSystem {
    pub num_panels: u64,
    pub panel_watts: u64,
    pub panel_cost: u64,
    pub transformer_efficiency: u64,
    pub panel_width: u64,
    pub panel_length: u64,
    pub params: SolarParams,
}

/// The generation power for one irradiance value: intensity times panel
/// count times nameplate watts, which lands in milliwatts since the
/// intensity is scaled by 1000.
pub open spec fn pv_mw(sys: PvSystem, v: int) -> int {
    v * sys.num_panels * sys.panel_watts
}

/// Every irradiance record is non-negative and scales to a power within the
/// machine bound.
pub open spec fn irradiance_ok(sys: PvSystem) -> bool {
    forall|t: int|
        0 <= t < sys.params.irradiance@.len() ==> 0 <= (#[trigger] sys.params.irradiance@[t]).1
            && pv_mw(sys, sys.params.irradiance@[t].1 as int) <= MAX_POWER_MW
}

impl PvSystem {
    /// The panel ratings stay within the bounds the scaling arithmetic
    /// needs.
    pub open spec fn ratings_wf(self) -> bool {
        &&& self.num_panels <= 0x10_0000
        &&& self.panel_watts <= 0x10_0000
    }

    /// Builds a photovoltaic system over an already-loaded irradiance
    /// table.
    pub fn new(
        num_panels: u64,
        panel_watts: u64,
        transformer_efficiency: u64,
        panel_width: u64,
        panel_length: u64,
        params: SolarParams,
    ) -> (r: Self)
        requires
            num_panels <= 0x10_0000,
            panel_watts <= 0x10_0000,
        ensures
            r.num_panels == num_panels,
            r.panel_watts == panel_watts,
            r.panel_cost == 0,
            r.transformer_efficiency == transformer_efficiency,
            r.panel_width == panel_width,
            r.panel_length == panel_length,
            r.params == params,
            r.ratings_wf(),
    {
        Self {
            num_panels,
            panel_watts,
            panel_cost: 0,
            transformer_efficiency,
            panel_width,
            panel_length,
            params,
        }
    }

    /// Converts the irradiance table into the generation power component:
    /// the output at each hour is the record's intensity times the panel
    /// count times the nameplate wattage; the input side is an empty
    /// series. A negative intensity, or one that scales past the power
    /// bound, is a configuration error.
    pub fn into_power_component(&self) -> (r: Result<PowerComponent, SimError>)
        requires
            self.ratings_wf(),
        ensures
            r is Ok <==> irradiance_ok(*self),
            r is Err ==> r == Err::<PowerComponent, SimError>(SimError::PowerOutOfRange),
            r is Ok ==> {
                let out = crate::power::output_of(r->Ok_0);
                let irr = self.params.irradiance@;
                &&& r->Ok_0.output_power_w_ts is Some
                &&& r->Ok_0.input_power_w_ts is Some
                &&& crate::power::input_of(r->Ok_0).len() == 0
                &&& out.len() == irr.len()
                &&& forall|t: int|
                    0 <= t < irr.len() ==> #[trigger] out[t] == (
                        irr[t].0,
                        pv_mw(*self, irr[t].1 as int) as i64,
                    )
                &&& values_in_range(out)
            },
    {
        let irr: &Vec<(u64, i64)> = &self.params.irradiance;
        proof {
            assert((self.num_panels as int) * (self.panel_watts as int) <= 0x100_0000_0000)
                by (nonlinear_arith)
                requires
                    self.num_panels <= 0x10_0000,
                    self.panel_watts <= 0x10_0000,
            ;
        }
        let scale: i64 = (self.num_panels * self.panel_watts) as i64;
        let n = irr.len();
        let mut out: Vec<PowerPoint> = Vec::new();
        let mut t: usize = 0;
        while t < n
            invariant
                irr@ == self.params.irradiance@,
                self.ratings_wf(),
                0 <= scale <= 0x100_0000_0000,
                scale == self.num_panels * self.panel_watts,
                n == irr@.len(),
                0 <= t <= n,
                out@.len() == t,
                forall|j: int|
                    0 <= j < t ==> 0 <= (#[trigger] irr@[j]).1 && pv_mw(*self, irr@[j].1 as int)
                        <= MAX_POWER_MW,
                forall|j: int|
                    0 <= j < t ==> #[trigger] out@[j] == (
                        irr@[j].0,
                        pv_mw(*self, irr@[j].1 as int) as i64,
                    ),
                forall|j: int| 0 <= j < t ==> 0 <= (#[trigger] out@[j]).1 <= MAX_POWER_MW,
            decreases n - t,
        {
            let v: i64 = irr[t].1;
            if v < 0 {
                proof {
                    assert(!irradiance_ok(*self));
                }
                return Err(SimError::PowerOutOfRange);
            }
            proof {
                assert((v as int) * (scale as int) < 0x8000_0000_0000_0000_0000_0000_0000
                    && (v as int) * (scale as int) == (v as int) * (self.num_panels as int) * (
                self.panel_watts as int)) by (nonlinear_arith)
                    requires
                        0 <= (v as int) < 0x8000_0000_0000_0000,
                        0 <= scale <= 0x100_0000_0000,
                        scale == (self.num_panels as int) * (self.panel_watts as int),
                ;
            }
            let p: i128 = (v as i128) * (scale as i128);
            if p > (MAX_POWER_MW as i128) {
                proof {
                    assert(!irradiance_ok(*self));
                }
                return Err(SimError::PowerOutOfRange);
            }
            out.push((irr[t].0, p as i64));
            t = t + 1;
        }
        let input: Vec<PowerPoint> = Vec::new();
        Ok(PowerComponent { input_power_w_ts: Some(input), output_power_w_ts: Some(out) })
    }
}

} // verus!
