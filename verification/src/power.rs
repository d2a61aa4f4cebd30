//! The power-component abstraction and its merge algebra: a paired
//! input/output power time series, the fixed three-phase power formula, and
//! the column-wise summation that folds a fleet of components into one
//! aggregate demand.
use crate::series::{aligned, check_aligned, values_in_range, PowerPoint};
use crate::{SimError, MAX_POWER_MW};
use vstd::prelude::*;

verus! {

/// The integer square root: the largest `r` with `r * r <= n`.
pub open spec fn isqrt_spec(n: nat) -> nat
    decreases n,
{
    if n == 0 {
        0
    } else {
        let s = isqrt_spec((n - 1) as nat);
        if (s + 1) * (s + 1) <= n {
            s + 1
        } else {
            s
        }
    }
}

/// `isqrt_spec(n)` squares to at most `n`, and is the largest such number.
pub proof fn lemma_isqrt_spec_bounds(n: nat)
    ensures
        isqrt_spec(n) * isqrt_spec(n) <= n,
        n < (isqrt_spec(n) + 1) * (isqrt_spec(n) + 1),
    decreases n,
{
    if n == 0 {
        assert(isqrt_spec(0) == 0);
        assert(n < (isqrt_spec(n) + 1) * (isqrt_spec(n) + 1)) by (nonlinear_arith)
            requires
                n == 0,
                isqrt_spec(n) == 0,
        ;
    } else {
        lemma_isqrt_spec_bounds((n - 1) as nat);
        let s = isqrt_spec((n - 1) as nat);
        assert(s * s <= n - 1);
        assert(n - 1 < (s + 1) * (s + 1));
        if (s + 1) * (s + 1) <= n {
            assert(isqrt_spec(n) == s + 1);
            assert((s + 1) * (s + 1) < (s + 2) * (s + 2)) by (nonlinear_arith)
                requires
                    0 <= s,
            ;
            assert(n < (s + 2) * (s + 2));
        } else {
            assert(isqrt_spec(n) == s);
            assert(s * s <= n);
            assert(n < (s + 1) * (s + 1));
        }
    }
}

/// Any `r` with `r * r <= n < (r + 1) * (r + 1)` is the integer square root.
pub proof fn lemma_isqrt_unique(n: nat, r: nat)
    requires
        r * r <= n,
        n < (r + 1) * (r + 1),
    ensures
        r == isqrt_spec(n),
{
    lemma_isqrt_spec_bounds(n);
    let s = isqrt_spec(n);
    if r < s {
        assert(false) by (nonlinear_arith)
            requires
                r < s,
                s * s <= n,
                n < (r + 1) * (r + 1),
            ;
    }
    if s < r {
        assert(false) by (nonlinear_arith)
            requires
                s < r,
                r * r <= n,
                n < (s + 1) * (s + 1),
            ;
    }
}

/// Computes the integer square root of `n` by binary search.
pub fn isqrt(n: u128) -> (r: u64)
    requires
        n < 0x4000_0000_0000_0000_0000_0000_0000_0000,
    ensures
        r as nat == isqrt_spec(n as nat),
{
    let mut lo: u64 = 0;
    let mut hi: u64 = 0x8000_0000_0000_0000;
    proof {
        assert((hi as nat) * (hi as nat) > n as nat) by (nonlinear_arith)
            requires
                hi as nat == 0x8000_0000_0000_0000,
                n < 0x4000_0000_0000_0000_0000_0000_0000_0000,
            ;
    }
    while lo + 1 < hi
        invariant
            lo < hi,
            hi <= 0x8000_0000_0000_0000,
            (lo as nat) * (lo as nat) <= n as nat,
            (n as nat) < (hi as nat) * (hi as nat),
        decreases hi - lo,
    {
        let mid = lo + (hi - lo) / 2;
        proof {
            assert((mid as nat) * (mid as nat) <= (hi as nat) * (hi as nat)) by (nonlinear_arith)
                requires
                    0 <= mid as nat <= hi as nat,
            ;
            assert((hi as nat) * (hi as nat) <= 0x4000_0000_0000_0000_0000_0000_0000_0000)
                by (nonlinear_arith)
                requires
                    hi as nat <= 0x8000_0000_0000_0000,
            ;
        }
        if (mid as u128) * (mid as u128) <= n {
            lo = mid;
        } else {
            hi = mid;
        }
    }
    proof {
        lemma_isqrt_unique(n as nat, lo as nat);
    }
    lo
}

/// The three-phase power formula in milliwatts:
/// `floor(sqrt(3) * volts * amps * power_factor)`, the power factor scaled by
/// 1000.
pub open spec fn three_phase_mw(volts: nat, amps: nat, power_factor_milli: nat) -> nat {
    isqrt_spec(3 * (volts * amps * power_factor_milli) * (volts * amps * power_factor_milli))
}

/// A paired input/output power time series; the unit of data every producer
/// and consumer model emits. Either side may be absent when it has not been
/// computed yet.
#[derive(Clone, Debug)]
pub struct PowerComponent {
    pub input_power_w_ts: Option<Vec<PowerPoint>>,
    pub output_power_w_ts: Option<Vec<PowerPoint>>,
}

/// The input series of a component, or the empty series when it is absent.
pub open spec fn input_of(c: PowerComponent) -> Seq<PowerPoint> {
    match c.input_power_w_ts {
        Some(v) => v@,
        None => Seq::empty(),
    }
}

/// The output series of a component, or the empty series when it is absent.
pub open spec fn output_of(c: PowerComponent) -> Seq<PowerPoint> {
    match c.output_power_w_ts {
        Some(v) => v@,
        None => Seq::empty(),
    }
}

/// The sum of the input powers of the first `k` components at index `t`.
pub open spec fn sum_at(cs: Seq<PowerComponent>, k: int, t: int) -> int
    decreases k,
{
    if k <= 0 {
        0
    } else {
        sum_at(cs, k - 1, t) + input_of(cs[k - 1])[t].1
    }
}

/// The column sum across all components at index `t`.
pub open spec fn col_sum(cs: Seq<PowerComponent>, t: int) -> int {
    sum_at(cs, cs.len() as int, t)
}

/// With non-negative inputs, prefixes of the column sum only grow.
pub proof fn lemma_sum_at_mono(cs: Seq<PowerComponent>, k1: int, k2: int, t: int)
    requires
        0 <= k1 <= k2 <= cs.len(),
        0 <= t,
        forall|k: int|
            0 <= k < cs.len() ==> 0 <= input_of(#[trigger] cs[k])[t].1,
    ensures
        sum_at(cs, k1, t) <= sum_at(cs, k2, t),
    decreases k2 - k1,
{
    if k1 < k2 {
        lemma_sum_at_mono(cs, k1, k2 - 1, t);
    }
}

/// A column of all-zero inputs sums to zero.
pub proof fn lemma_sum_at_zero(cs: Seq<PowerComponent>, k: int, t: int)
    requires
        0 <= k <= cs.len(),
        forall|j: int| 0 <= j < cs.len() ==> input_of(#[trigger] cs[j])[t].1 == 0,
    ensures
        sum_at(cs, k, t) == 0,
    decreases k,
{
    if k > 0 {
        lemma_sum_at_zero(cs, k - 1, t);
    }
}

/// Merging one component leaves its input series unchanged: the column sum of
/// a single component at `t` is that component's own input power at `t`.
pub proof fn lemma_merge_single_identity(cs: Seq<PowerComponent>, t: int)
    requires
        cs.len() == 1,
    ensures
        col_sum(cs, t) == input_of(cs[0])[t].1,
{
    assert(sum_at(cs, 0, t) == 0);
    assert(col_sum(cs, t) == sum_at(cs, 0, t) + input_of(cs[0])[t].1);
}

/// Every component carries an input series.
pub open spec fn all_have_input(cs: Seq<PowerComponent>) -> bool {
    forall|k: int| 0 <= k < cs.len() ==> (#[trigger] cs[k]).input_power_w_ts is Some
}

/// Every component's input series shares the timestamp grid of `ref_s`.
pub open spec fn all_aligned_with(cs: Seq<PowerComponent>, ref_s: Seq<PowerPoint>) -> bool {
    forall|k: int| 0 <= k < cs.len() ==> aligned(ref_s, input_of(#[trigger] cs[k]))
}

/// Every column sum stays within `[0, MAX_POWER_MW]`.
pub open spec fn col_sums_in_range(cs: Seq<PowerComponent>, len: int) -> bool {
    forall|t: int| 0 <= t < len ==> #[trigger] col_sum(cs, t) <= MAX_POWER_MW
}

/// The aggregate demand produced by merging a fleet of power components.
#[derive(Clone, Debug)]
pub struct EnergyConsumer {
    pub demand: PowerComponent,
    pub time_cycles: u64,
    pub total_input: i64,
    pub total_output: i64,
}

impl PowerComponent {
    /// A component with neither series computed yet.
    pub fn new() -> (r: Self)
        ensures
            r.input_power_w_ts is None,
            r.output_power_w_ts is None,
    {
        Self { input_power_w_ts: None, output_power_w_ts: None }
    }

    /// A component carrying the given series.
    pub fn new_ts(
        input_power_w_ts: Option<Vec<PowerPoint>>,
        output_power_w_ts: Option<Vec<PowerPoint>>,
    ) -> (r: Self)
        ensures
            r.input_power_w_ts == input_power_w_ts,
            r.output_power_w_ts == output_power_w_ts,
    {
        Self { input_power_w_ts, output_power_w_ts }
    }

    /// The fixed three-phase power formula,
    /// `sqrt(3) * volts * amps * power_factor`, rounded down to a whole
    /// milliwatt. It never fails for inputs within the rated bounds.
    pub fn power(volts: u64, amps: u64, power_factor_milli: u64) -> (r: Result<u64, SimError>)
        requires
            volts <= 0x10_0000,
            amps <= 0x10_0000,
            power_factor_milli <= 1000,
        ensures
            r is Ok,
            r->Ok_0 as nat == three_phase_mw(volts as nat, amps as nat, power_factor_milli as nat),
    {
        proof {
            assert((volts as nat) * (amps as nat) <= 0x100_0000_0000) by (nonlinear_arith)
                requires
                    volts as nat <= 0x10_0000,
                    amps as nat <= 0x10_0000,
            ;
            assert((volts as nat) * (amps as nat) * (power_factor_milli as nat)
                <= 0x4_0000_0000_0000) by (nonlinear_arith)
                requires
                    (volts as nat) * (amps as nat) <= 0x100_0000_0000,
                    power_factor_milli as nat <= 1000,
            ;
        }
        let x: u64 = volts * amps * power_factor_milli;
        proof {
            assert((3 * (x as nat)) * (x as nat) == 3 * (x as nat) * (x as nat) && 3 * (x as nat)
                * (x as nat) < 0x4000_0000_0000_0000_0000_0000_0000_0000) by (nonlinear_arith)
                requires
                    x as nat <= 0x4_0000_0000_0000,
            ;
        }
        let n: u128 = 3 * (x as u128) * (x as u128);
        Ok(isqrt(n))
    }

    /// Merges a fleet of components into one aggregate demand: for each
    /// timestamp of the first component's grid, the input powers of all
    /// components are summed column-wise. Every component must carry an input
    /// series on that same grid; the aggregate's output side is left unset.
    pub fn merge_power_components(
        components: &Vec<PowerComponent>,
        time_cycle: u64,
    ) -> (r: Result<EnergyConsumer, SimError>)
        requires
            forall|k: int|
                0 <= k < components@.len() ==> values_in_range(
                    input_of(#[trigger] components@[k]),
                ),
        ensures
            (components@.len() == 0) <==> (r == Err::<EnergyConsumer, SimError>(
                SimError::EmptyInput,
            )),
            (components@.len() > 0 && !all_have_input(components@)) <==> (r == Err::<
                EnergyConsumer,
                SimError,
            >(SimError::MissingSeries)),
            (components@.len() > 0 && all_have_input(components@) && !all_aligned_with(
                components@,
                input_of(components@[0]),
            )) <==> (r == Err::<EnergyConsumer, SimError>(SimError::Misaligned)),
            (components@.len() > 0 && all_have_input(components@) && all_aligned_with(
                components@,
                input_of(components@[0]),
            ) && !col_sums_in_range(components@, input_of(components@[0]).len() as int)) <==> (r
                == Err::<EnergyConsumer, SimError>(SimError::PowerOutOfRange)),
            r is Ok <==> (components@.len() > 0 && all_have_input(components@) && all_aligned_with(
                components@,
                input_of(components@[0]),
            ) && col_sums_in_range(components@, input_of(components@[0]).len() as int)),
            r is Ok ==> {
                let agg = input_of(r->Ok_0.demand);
                let ref_s = input_of(components@[0]);
                &&& r->Ok_0.demand.input_power_w_ts is Some
                &&& r->Ok_0.demand.output_power_w_ts is None
                &&& agg.len() == ref_s.len()
                &&& forall|t: int|
                    0 <= t < ref_s.len() ==> (#[trigger] agg[t]).0 == ref_s[t].0 && agg[t].1
                        == col_sum(components@, t)
                &&& values_in_range(agg)
                &&& r->Ok_0.time_cycles == time_cycle
                &&& r->Ok_0.total_input == 0
                &&& r->Ok_0.total_output == 0
            },
    {
        let n = components.len();
        if n == 0 {
            return Err(SimError::EmptyInput);
        }
        let mut k: usize = 0;
        while k < n
            invariant
                n == components@.len(),
                0 <= k <= n,
                forall|j: int|
                    0 <= j < k ==> (#[trigger] components@[j]).input_power_w_ts is Some,
            decreases n - k,
        {
            if components[k].input_power_w_ts.is_none() {
                return Err(SimError::MissingSeries);
            }
            k = k + 1;
        }
        let ref_s: &Vec<PowerPoint> = match &components[0].input_power_w_ts {
            Some(v) => v,
            None => {
                return Err(SimError::MissingSeries);
            },
        };
        let mut k: usize = 0;
        while k < n
            invariant
                n == components@.len(),
                all_have_input(components@),
                ref_s@ == input_of(components@[0]),
                0 <= k <= n,
                forall|j: int|
                    0 <= j < k ==> aligned(ref_s@, input_of(#[trigger] components@[j])),
            decreases n - k,
        {
            let sk: &Vec<PowerPoint> = match &components[k].input_power_w_ts {
                Some(v) => v,
                None => {
                    return Err(SimError::MissingSeries);
                },
            };
            if !check_aligned(ref_s, sk) {
                return Err(SimError::Misaligned);
            }
            k = k + 1;
        }
        let h = ref_s.len();
        let mut sums: Vec<PowerPoint> = Vec::new();
        let mut t: usize = 0;
        while t < h
            invariant
                n == components@.len(),
                n > 0,
                all_have_input(components@),
                ref_s@ == input_of(components@[0]),
                all_aligned_with(components@, ref_s@),
                forall|j: int|
                    0 <= j < components@.len() ==> values_in_range(
                        input_of(#[trigger] components@[j]),
                    ),
                h == ref_s@.len(),
                0 <= t <= h,
                sums@.len() == t,
                forall|u: int|
                    0 <= u < t ==> (#[trigger] sums@[u]).0 == ref_s@[u].0 && sums@[u].1 == col_sum(
                        components@,
                        u,
                    ),
                forall|u: int| 0 <= u < t ==> 0 <= (#[trigger] sums@[u]).1 <= MAX_POWER_MW,
            decreases h - t,
        {
            let mut acc: i64 = 0;
            let mut k: usize = 0;
            while k < n
                invariant
                    n == components@.len(),
                    all_have_input(components@),
                    ref_s@ == input_of(components@[0]),
                    all_aligned_with(components@, ref_s@),
                    forall|j: int|
                        0 <= j < components@.len() ==> values_in_range(
                            input_of(#[trigger] components@[j]),
                        ),
                    h == ref_s@.len(),
                    0 <= t < h,
                    0 <= k <= n,
                    acc == sum_at(components@, k as int, t as int),
                    0 <= acc <= MAX_POWER_MW,
                decreases n - k,
            {
                let sk: &Vec<PowerPoint> = match &components[k].input_power_w_ts {
                    Some(v) => v,
                    None => {
                        return Err(SimError::MissingSeries);
                    },
                };
                proof {
                    assert(aligned(ref_s@, input_of(components@[k as int])));
                    assert(values_in_range(input_of(components@[k as int])));
                }
                let v: i64 = sk[t].1;
                proof {
                    assert(sk@ == input_of(components@[k as int]));
                    assert(0 <= v <= MAX_POWER_MW);
                    assert(sum_at(components@, (k + 1) as int, t as int) == acc + v);
                }
                if acc > MAX_POWER_MW - v {
                    proof {
                        assert forall|j: int| 0 <= j < components@.len() implies 0 <= input_of(
                            #[trigger] components@[j],
                        )[t as int].1 by {
                            assert(values_in_range(input_of(components@[j])));
                            assert(aligned(ref_s@, input_of(components@[j])));
                        }
                        lemma_sum_at_mono(components@, (k + 1) as int, n as int, t as int);
                        assert(col_sum(components@, t as int) > MAX_POWER_MW);
                        assert(!col_sums_in_range(
                            components@,
                            input_of(components@[0]).len() as int,
                        ));
                    }
                    return Err(SimError::PowerOutOfRange);
                }
                acc = acc + v;
                k = k + 1;
            }
            sums.push((ref_s[t].0, acc));
            t = t + 1;
        }
        proof {
            assert forall|u: int| 0 <= u < h implies #[trigger] col_sum(components@, u)
                <= MAX_POWER_MW by {
                assert(sums@[u].1 == col_sum(components@, u));
            }
            assert(col_sums_in_range(components@, input_of(components@[0]).len() as int));
        }
        Ok(
            EnergyConsumer {
                demand: PowerComponent {
                    input_power_w_ts: Some(sums),
                    output_power_w_ts: None,
                },
                time_cycles: time_cycle,
                total_input: 0,
                total_output: 0,
            },
        )
    }
}

} // verus!
