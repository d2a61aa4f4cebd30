//! The stochastic demand side of the simulation: hourly date grids parsed
//! from date strings, a pluggable source of Poisson-style session counts,
//! and the modulated arrival process that reshapes per-hour draws into
//! hour-by-day sample and date matrices.
use crate::{SimError, MAX_HORIZON_HOURS, MAX_RATE_MILLI};
use vstd::arithmetic::div_mod::{lemma_fundamental_div_mod, lemma_mod_multiples_vanish, lemma_small_mod};
use vstd::prelude::*;

verus! {

/// What chrono computes for a date string under the fixed format
/// `%Y-%m-%d %H:%M:%S%:z`: the instant as whole seconds since the Unix
/// epoch, or nothing when the string does not parse. The result depends on
/// the characters of the string alone.
pub uninterp spec fn parsed_utc_seconds(s: Seq<char>) -> Option<int>;

/// Relies on chrono's `DateTime::parse_from_str` with the format
/// `%Y-%m-%d %H:%M:%S%:z` to read a date string, and on
/// `DateTime::timestamp` to turn the parsed instant into seconds since the
/// Unix epoch. Both are functions of the string alone.
#[verifier::external_body]
fn parse_datetime_utc(s: &str) -> (r: Option<i64>)
    ensures
        r is Some <==> parsed_utc_seconds(s@) is Some,
        r is Some ==> parsed_utc_seconds(s@) == Some(r->0 as int),
{
    chrono::DateTime::parse_from_str(s, "%Y-%m-%d %H:%M:%S%:z").ok().map(|d| d.timestamp())
}

/// Two date strings span a usable hourly range: both parse, both fall on a
/// whole hour at or after the epoch, and the second lies strictly after the
/// first.
pub open spec fn range_ok(d1: Seq<char>, d2: Seq<char>) -> bool {
    let p1 = parsed_utc_seconds(d1);
    let p2 = parsed_utc_seconds(d2);
    &&& p1 is Some
    &&& p2 is Some
    &&& p1->0 >= 0
    &&& p1->0 % 3600 == 0
    &&& p2->0 % 3600 == 0
    &&& p2->0 > p1->0
}

/// The first hour of the range, in hours since the epoch.
pub open spec fn start_hour(d1: Seq<char>) -> int {
    parsed_utc_seconds(d1)->0 / 3600
}

/// The hour just past the end of the range, in hours since the epoch.
pub open spec fn end_hour(d2: Seq<char>) -> int {
    parsed_utc_seconds(d2)->0 / 3600
}

/// The number of hours the range spans.
pub open spec fn horizon_hours(d1: Seq<char>, d2: Seq<char>) -> int {
    end_hour(d2) - start_hour(d1)
}

/// Parses a pair of date strings into `(first hour, hour past the end)`,
/// both in hours since the epoch. A string that does not parse, an instant
/// off the hour grid or before the epoch, or an empty or negative range is a
/// configuration error.
pub fn parse_hour_range(date1: &str, date2: &str) -> (r: Result<(u64, u64), SimError>)
    ensures
        r is Ok <==> range_ok(date1@, date2@),
        r is Err ==> r == Err::<(u64, u64), SimError>(SimError::BadDateRange),
        r is Ok ==> r->Ok_0.0 == start_hour(date1@) && r->Ok_0.1 == end_hour(date2@),
{
    let s1: i64 = match parse_datetime_utc(date1) {
        Some(v) => v,
        None => {
            return Err(SimError::BadDateRange);
        },
    };
    let s2: i64 = match parse_datetime_utc(date2) {
        Some(v) => v,
        None => {
            return Err(SimError::BadDateRange);
        },
    };
    if s1 < 0 || s2 <= s1 {
        return Err(SimError::BadDateRange);
    }
    if s1 % 3600 != 0 || s2 % 3600 != 0 {
        return Err(SimError::BadDateRange);
    }
    Ok(((s1 / 3600) as u64, (s2 / 3600) as u64))
}

/// A pluggable source of session-count samples: one draw of the number of
/// charging sessions arriving in an hour whose intensity is `rate_milli`
/// milli-arrivals per minute. An implementation may be random (a Poisson
/// draw) or fixed (for deterministic runs); nothing is assumed about the
/// values it returns.
pub trait RateSampler {
    /// Draws one session count for an hour with the given intensity.
    fn sample_count(&mut self, rate_milli: u64) -> u64;
}

/// A deterministic sampler that replays a fixed sequence of counts,
/// cycling when it reaches the end. It stands in for the random source in
/// seeded or repeatable runs.
pub struct FixedSampler {
    pub values: Vec<u64>,
    pub next: usize,
}

impl RateSampler for FixedSampler {
    fn sample_count(&mut self, rate_milli: u64) -> (r: u64)
        ensures
            old(self).values@.len() == 0 ==> r == 0 && *final(self) == *old(self),
            old(self).values@.len() > 0 ==> {
                let idx = (old(self).next as int) % (old(self).values@.len() as int);
                &&& r == old(self).values@[idx]
                &&& final(self).values == old(self).values
                &&& final(self).next as int == (if idx + 1 < old(self).values@.len() as int {
                    idx + 1
                } else {
                    0
                })
            },
    {
        if self.values.len() == 0 {
            0
        } else {
            let idx = self.next % self.values.len();
            let v = self.values[idx];
            self.next = if idx + 1 < self.values.len() {
                idx + 1
            } else {
                0
            };
            v
        }
    }
}

/// Draws one sample per (day, rate) cell, walking day-major: for each of
/// `time_steps` days, one draw per entry of `lambda_milli`, in order. An
/// entry with rate zero contributes a zero count without consulting the
/// sampler, so an all-zero profile yields an all-zero result whatever the
/// sampler would return.
pub fn sample_from_poisson_distributions<S: RateSampler>(
    lambda_milli: &Vec<u64>,
    sampler: &mut S,
    time_steps: usize,
) -> (r: Vec<u64>)
    requires
        lambda_milli@.len() <= 24,
        time_steps <= MAX_HORIZON_HOURS,
    ensures
        r@.len() == time_steps * lambda_milli@.len(),
        forall|k: int|
            0 <= k < r@.len() ==> (lambda_milli@[k % (lambda_milli@.len() as int)] == 0
                ==> #[trigger] r@[k] == 0),
{
    let l = lambda_milli.len();
    let mut out: Vec<u64> = Vec::new();
    if l == 0 {
        proof {
            assert(time_steps * lambda_milli@.len() == 0) by (nonlinear_arith)
                requires
                    lambda_milli@.len() == 0,
            ;
        }
        return out;
    }
    proof {
        assert(time_steps * l <= 24 * 0x10_0000) by (nonlinear_arith)
            requires
                time_steps <= 0x10_0000,
                l <= 24,
        ;
    }
    let total: usize = time_steps * l;
    let mut k: usize = 0;
    while k < total
        invariant
            l == lambda_milli@.len(),
            0 < l <= 24,
            total == time_steps * l,
            0 <= k <= total,
            out@.len() == k,
            forall|j: int|
                0 <= j < k ==> (lambda_milli@[j % (l as int)] == 0 ==> #[trigger] out@[j] == 0),
        decreases total - k,
    {
        let rate = lambda_milli[k % l];
        let c: u64 = if rate == 0 {
            0
        } else {
            sampler.sample_count(rate)
        };
        out.push(c);
        k = k + 1;
    }
    out
}

/// A 24-row, day-per-column grid of sampled session counts: row `h` holds
/// the draws for hour-of-day `h`, column `d` those of day `d`.
#[derive(Clone, Debug)]
pub struct SampleMatrix {
    pub cells: Vec<Vec<u64>>,
    pub days: usize,
}

impl SampleMatrix {
    /// 24 rows, each one count per day.
    pub open spec fn wf(self) -> bool {
        &&& self.cells@.len() == 24
        &&& forall|h: int| 0 <= h < 24 ==> (#[trigger] self.cells@[h])@.len() == self.days
    }

    /// The count drawn for hour-of-day `h` on day `d`.
    pub open spec fn cell(self, h: int, d: int) -> u64 {
        self.cells@[h]@[d]
    }

    /// Reads the count for hour-of-day `h` on day `d`.
    pub fn get(&self, h: usize, d: usize) -> (c: u64)
        requires
            self.wf(),
            h < 24,
            d < self.days,
        ensures
            c == self.cell(h as int, d as int),
    {
        self.cells[h][d]
    }
}

/// A 24-row, day-per-column grid of timestamps: the hour since the epoch
/// that each sample cell stands for.
#[derive(Clone, Debug)]
pub struct DateMatrix {
    pub cells: Vec<Vec<u64>>,
    pub days: usize,
}

impl DateMatrix {
    /// 24 rows, each one timestamp per day.
    pub open spec fn wf(self) -> bool {
        &&& self.cells@.len() == 24
        &&& forall|h: int| 0 <= h < 24 ==> (#[trigger] self.cells@[h])@.len() == self.days
    }

    /// The timestamp of hour-of-day `h` on day `d`.
    pub open spec fn cell(self, h: int, d: int) -> u64 {
        self.cells@[h]@[d]
    }

    /// Reads the timestamp of hour-of-day `h` on day `d`.
    pub fn get(&self, h: usize, d: usize) -> (c: u64)
        requires
            self.wf(),
            h < 24,
            d < self.days,
        ensures
            c == self.cell(h as int, d as int),
    {
        self.cells[h][d]
    }
}

/// The date grid of a run is usable: the range is well formed, spans a whole
/// number of days, and stays within the machine horizon.
pub open spec fn date_grid_ok(d1: Seq<char>, d2: Seq<char>) -> bool {
    &&& range_ok(d1, d2)
    &&& horizon_hours(d1, d2) % 24 == 0
    &&& horizon_hours(d1, d2) <= MAX_HORIZON_HOURS
}

/// A 24-entry arrival-intensity profile is valid: no negative rate and none
/// above the machine bound.
pub open spec fn rates_ok(lambda: Seq<i64>) -> bool {
    forall|h: int| 0 <= h < lambda.len() ==> 0 <= #[trigger] lambda[h] <= MAX_RATE_MILLI
}

/// The modulated Poisson arrival process over an hourly date grid: builds
/// one intensity per hour-of-day from the 24-entry profile, draws one count
/// per (hour, day) cell through the sampler, and returns the counts together
/// with the timestamp each cell stands for, both in hour-major, day-minor
/// shape. An hour with intensity zero always samples zero, so an all-zero
/// profile deterministically yields an all-zero sample matrix.
pub fn modulated_markov_poison_process<S: RateSampler>(
    date1: &str,
    date2: &str,
    lambda: &Vec<i64>,
    sampler: &mut S,
) -> (r: Result<(SampleMatrix, DateMatrix), SimError>)
    ensures
        !date_grid_ok(date1@, date2@) <==> (r == Err::<(SampleMatrix, DateMatrix), SimError>(
            SimError::BadDateRange,
        )),
        (date_grid_ok(date1@, date2@) && lambda@.len() != 24) <==> (r == Err::<
            (SampleMatrix, DateMatrix),
            SimError,
        >(SimError::InvalidProfileLength)),
        (date_grid_ok(date1@, date2@) && lambda@.len() == 24 && !rates_ok(lambda@)) <==> (r
            == Err::<(SampleMatrix, DateMatrix), SimError>(SimError::InvalidRate)),
        r is Ok <==> (date_grid_ok(date1@, date2@) && lambda@.len() == 24 && rates_ok(lambda@)),
        r is Ok ==> {
            let sm = r->Ok_0.0;
            let dm = r->Ok_0.1;
            &&& sm.wf()
            &&& dm.wf()
            &&& sm.days == horizon_hours(date1@, date2@) / 24
            &&& dm.days == sm.days
            &&& forall|h: int, d: int|
                0 <= h < 24 && 0 <= d < sm.days ==> #[trigger] dm.cell(h, d) == start_hour(date1@)
                    + d * 24 + h
            &&& forall|h: int, d: int|
                0 <= h < 24 && 0 <= d < sm.days ==> (lambda@[h] == 0 ==> #[trigger] sm.cell(h, d)
                    == 0)
        },
{
    let (h1, h2) = match parse_hour_range(date1, date2) {
        Ok(p) => p,
        Err(e) => {
            return Err(e);
        },
    };
    proof {
        let p1 = parsed_utc_seconds(date1@)->0;
        let p2 = parsed_utc_seconds(date2@)->0;
        lemma_fundamental_div_mod(p1, 3600);
        lemma_fundamental_div_mod(p2, 3600);
        assert(p1 / 3600 < p2 / 3600) by (nonlinear_arith)
            requires
                p1 == 3600 * (p1 / 3600),
                p2 == 3600 * (p2 / 3600),
                p1 < p2,
        ;
    }
    let horizon: u64 = h2 - h1;
    if horizon % 24 != 0 || horizon > MAX_HORIZON_HOURS {
        return Err(SimError::BadDateRange);
    }
    if lambda.len() != 24 {
        return Err(SimError::InvalidProfileLength);
    }
    let mut rates: Vec<u64> = Vec::new();
    let mut h: usize = 0;
    while h < 24
        invariant
            date_grid_ok(date1@, date2@),
            lambda@.len() == 24,
            0 <= h <= 24,
            rates@.len() == h,
            forall|j: int| 0 <= j < h ==> 0 <= #[trigger] lambda@[j] <= MAX_RATE_MILLI,
            forall|j: int| 0 <= j < h ==> #[trigger] rates@[j] == lambda@[j] as u64,
        decreases 24 - h,
    {
        let v = lambda[h];
        if v < 0 || v > MAX_RATE_MILLI {
            proof {
                assert(!(0 <= lambda@[h as int] <= MAX_RATE_MILLI));
            }
            return Err(SimError::InvalidRate);
        }
        rates.push(v as u64);
        h = h + 1;
    }
    let days: usize = (horizon / 24) as usize;
    proof {
        lemma_fundamental_div_mod(horizon as int, 24);
        assert(24 * days == horizon);
    }
    let flat = sample_from_poisson_distributions(&rates, sampler, days);
    let mut sm_rows: Vec<Vec<u64>> = Vec::new();
    let mut dm_rows: Vec<Vec<u64>> = Vec::new();
    let mut h: usize = 0;
    while h < 24
        invariant
            lambda@.len() == 24,
            forall|j: int| 0 <= j < 24 ==> #[trigger] rates@[j] == lambda@[j] as u64,
            rates@.len() == 24,
            flat@.len() == days * 24,
            forall|k: int|
                0 <= k < flat@.len() ==> (rates@[k % 24] == 0 ==> #[trigger] flat@[k] == 0),
            24 * days <= MAX_HORIZON_HOURS,
            h1 + 24 * days <= h2,
            0 <= h <= 24,
            sm_rows@.len() == h,
            dm_rows@.len() == h,
            forall|j: int| 0 <= j < h ==> (#[trigger] sm_rows@[j])@.len() == days,
            forall|j: int| 0 <= j < h ==> (#[trigger] dm_rows@[j])@.len() == days,
            forall|j: int, d: int|
                0 <= j < h && 0 <= d < days ==> (#[trigger] sm_rows@[j]@[d]) == flat@[d * 24 + j],
            forall|j: int, d: int|
                0 <= j < h && 0 <= d < days ==> (lambda@[j] == 0 ==> #[trigger] sm_rows@[j]@[d]
                    == 0),
            forall|j: int, d: int|
                0 <= j < h && 0 <= d < days ==> (#[trigger] dm_rows@[j]@[d]) == h1 + d * 24 + j,
        decreases 24 - h,
    {
        let mut srow: Vec<u64> = Vec::new();
        let mut drow: Vec<u64> = Vec::new();
        let mut d: usize = 0;
        while d < days
            invariant
                lambda@.len() == 24,
                forall|j: int| 0 <= j < 24 ==> #[trigger] rates@[j] == lambda@[j] as u64,
                rates@.len() == 24,
                flat@.len() == days * 24,
                forall|k: int|
                    0 <= k < flat@.len() ==> (rates@[k % 24] == 0 ==> #[trigger] flat@[k] == 0),
                24 * days <= MAX_HORIZON_HOURS,
                h1 + 24 * days <= h2,
                0 <= h < 24,
                0 <= d <= days,
                srow@.len() == d,
                drow@.len() == d,
                forall|e: int| 0 <= e < d ==> (#[trigger] srow@[e]) == flat@[e * 24 + h],
                forall|e: int|
                    0 <= e < d ==> (lambda@[h as int] == 0 ==> (#[trigger] srow@[e]) == 0),
                forall|e: int| 0 <= e < d ==> (#[trigger] drow@[e]) == h1 + e * 24 + h,
            decreases days - d,
        {
            let idx: usize = d * 24 + h;
            proof {
                assert(idx < days * 24);
                lemma_mod_multiples_vanish(d as int, h as int, 24);
                lemma_small_mod(h as nat, 24);
                assert((d * 24 + h) % 24 == h as int);
            }
            srow.push(flat[idx]);
            let ts: u64 = h1 + (idx as u64);
            drow.push(ts);
            d = d + 1;
        }
        sm_rows.push(srow);
        dm_rows.push(drow);
        h = h + 1;
    }
    let sm = SampleMatrix { cells: sm_rows, days };
    let dm = DateMatrix { cells: dm_rows, days };
    Ok((sm, dm))
}

} // verus!
