//! Frequency sampling and the elementary transfer functions.
//!
//! A `Frequencies` value names the evaluation frequencies in Hz. The
//! planner turns it into an ordered list of points: the k-th point of the
//! plan is the k-th requested frequency, and the endpoints of a log or
//! linear grid are the bounds themselves, exactly. The interpolation of
//! the interior grid points, and the evaluation of the transfer functions
//! at each point, is floating-point work done outside this crate over the
//! plan.

use vstd::prelude::*;

use crate::structural::MAX_FINITE_BITS;

verus! {

/// Invalid frequency sampling request.
#[derive(Debug)]
pub enum ConfigError {
    /// A grid was requested with `upper <= lower`, a bound that is not a
    /// finite value, fewer than two samples, or a zero lower bound on a
    /// logarithmic grid (bit patterns).
    InvalidFrequencyRange { lower: u64, upper: u64, n: usize },
}

/// Frequency sampling options; the values are in Hz (bit patterns of
/// nonnegative finite doubles, whose order is the numeric order).
#[derive(Clone, Debug)]
pub enum Frequencies {
    /// A single frequency.
    Single { value: u64 },
    /// Logarithmic (log base 10) sampling of `[lower, upper]` with `n`
    /// samples.
    LogSpace { lower: u64, upper: u64, n: usize },
    /// Regular sampling of `[lower, upper]` with `n` samples.
    LinSpace { lower: u64, upper: u64, n: usize },
    /// A given list of frequencies, kept as given: not sorted, not
    /// deduplicated.
    Values { values: Vec<u64> },
}

impl Frequencies {
    pub fn logspace(lower: u64, upper: u64, n: usize) -> (r: Self)
        ensures
            (r == Frequencies::LogSpace { lower, upper, n }),
    {
        Frequencies::LogSpace { lower, upper, n }
    }

    pub fn linspace(lower: u64, upper: u64, n: usize) -> (r: Self)
        ensures
            (r == Frequencies::LinSpace { lower, upper, n }),
    {
        Frequencies::LinSpace { lower, upper, n }
    }
}

/// One planned evaluation point.
#[derive(Clone, Copy, Debug, PartialEq, Eq, Structural)]
pub enum FreqPoint {
    /// The frequency is exactly this value (Hz, bit pattern).
    Exact { value: u64 },
    /// The frequency is the i-th of n points of the logarithmic grid
    /// from `lower` to `upper`: `10^(log10(lower) + i*(log10(upper) -
    /// log10(lower))/(n-1))`, with `0 < i < n - 1`.
    LogStep { lower: u64, upper: u64, i: usize, n: usize },
    /// The frequency is the i-th of n points of the linear grid from
    /// `lower` to `upper`: `lower + i*(upper - lower)/(n-1)`, with
    /// `0 < i < n - 1`.
    LinStep { lower: u64, upper: u64, i: usize, n: usize },
}

/// The plan of a log or linear grid: the bounds themselves at the ends,
/// interpolation points between them.
pub open spec fn grid_plan(lower: u64, upper: u64, n: int, logarithmic: bool) -> Seq<FreqPoint> {
    Seq::new(
        n as nat,
        |i: int|
            if i == 0 {
                FreqPoint::Exact { value: lower }
            } else if i == n - 1 {
                FreqPoint::Exact { value: upper }
            } else if logarithmic {
                FreqPoint::LogStep { lower, upper, i: i as usize, n: n as usize }
            } else {
                FreqPoint::LinStep { lower, upper, i: i as usize, n: n as usize }
            },
    )
}

/// The evaluation points of a sampling request, in request order.
pub open spec fn plan_of(f: Frequencies) -> Seq<FreqPoint> {
    match f {
        Frequencies::Single { value } => seq![FreqPoint::Exact { value }],
        Frequencies::LogSpace { lower, upper, n } => grid_plan(lower, upper, n as int, true),
        Frequencies::LinSpace { lower, upper, n } => grid_plan(lower, upper, n as int, false),
        Frequencies::Values { values } => values@.map_values(|v: u64| FreqPoint::Exact { value: v }),
    }
}

/// A grid needs finite bounds in order and at least two samples; a
/// logarithmic grid also needs a positive lower bound, while a linear one
/// may start at zero. A single frequency or a given set is always valid.
pub open spec fn valid_frequencies(f: Frequencies) -> bool {
    match f {
        Frequencies::Single { .. } => true,
        Frequencies::LogSpace { lower, upper, n } => 0 < lower < upper <= MAX_FINITE_BITS && n
            >= 2,
        Frequencies::LinSpace { lower, upper, n } => lower < upper <= MAX_FINITE_BITS && n >= 2,
        Frequencies::Values { .. } => true,
    }
}

/// Grid correctness: a grid plan has exactly `n` points, and its first
/// and last points are exactly the bounds.
pub proof fn lemma_grid_endpoints(lower: u64, upper: u64, n: usize, logarithmic: bool)
    requires
        n >= 2,
    ensures
        grid_plan(lower, upper, n as int, logarithmic).len() == n,
        (grid_plan(lower, upper, n as int, logarithmic)[0] == FreqPoint::Exact { value: lower }),
        (grid_plan(lower, upper, n as int, logarithmic)[n - 1] == FreqPoint::Exact {
            value: upper,
        }),
{
}

/// Order preservation: the k-th planned point of a given set is exactly
/// the k-th requested frequency.
pub proof fn lemma_plan_order(values: Vec<u64>, k: int)
    requires
        0 <= k < values@.len(),
    ensures
        plan_of(Frequencies::Values { values }).len() == values@.len(),
        (plan_of(Frequencies::Values { values })[k] == FreqPoint::Exact { value: values@[k] }),
{
}

/// Plans the evaluation points of a sampling request: one point per
/// requested frequency, in request order; grid endpoints are the bounds
/// themselves. Fails on an invalid grid.
pub fn frequency_plan(f: &Frequencies) -> (r: Result<Vec<FreqPoint>, ConfigError>)
    ensures
        (r matches Ok(p) ==> p@ == plan_of(*f)),
        r is Ok <==> valid_frequencies(*f),
        (r matches Err(e) ==> match *f {
            Frequencies::LogSpace { lower, upper, n } => (e == ConfigError::InvalidFrequencyRange {
                lower,
                upper,
                n,
            }),
            Frequencies::LinSpace { lower, upper, n } => (e == ConfigError::InvalidFrequencyRange {
                lower,
                upper,
                n,
            }),
            _ => false,
        }),
{
    match f {
        Frequencies::Single { value } => {
            let mut p: Vec<FreqPoint> = Vec::new();
            p.push(FreqPoint::Exact { value: *value });
            proof {
                assert(p@ =~~= plan_of(*f));
            }
            Ok(p)
        },
        Frequencies::LogSpace { lower, upper, n } => grid_points(*lower, *upper, *n, true),
        Frequencies::LinSpace { lower, upper, n } => grid_points(*lower, *upper, *n, false),
        Frequencies::Values { values } => {
            let m = values.len();
            let mut p: Vec<FreqPoint> = Vec::new();
            let mut k: usize = 0;
            while k < m
                invariant
                    k <= m,
                    m == values@.len(),
                    p@.len() == k,
                    forall|t: int|
                        0 <= t < k ==> p@[t] == (FreqPoint::Exact { value: values@[t] }),
                decreases m - k,
            {
                let v = values[k];
                p.push(FreqPoint::Exact { value: v });
                k += 1;
            }
            proof {
                assert(p@ =~~= plan_of(*f));
            }
            Ok(p)
        },
    }
}

/// The points of one grid, log or linear.
fn grid_points(lower: u64, upper: u64, n: usize, logarithmic: bool) -> (r: Result<
    Vec<FreqPoint>,
    ConfigError,
>)
    ensures
        (r matches Ok(p) ==> p@ == grid_plan(lower, upper, n as int, logarithmic)),
        r is Ok <==> (lower < upper <= MAX_FINITE_BITS && n >= 2 && (logarithmic ==> 0 < lower)),
        (r matches Err(e) ==> (e == ConfigError::InvalidFrequencyRange { lower, upper, n })),
{
    if !(lower < upper && upper <= MAX_FINITE_BITS && n >= 2) || (logarithmic && lower == 0) {
        return Err(ConfigError::InvalidFrequencyRange { lower, upper, n });
    }
    let mut p: Vec<FreqPoint> = Vec::new();
    p.push(FreqPoint::Exact { value: lower });
    let mut i: usize = 1;
    while i < n - 1
        invariant
            1 <= i <= n - 1,
            n >= 2,
            p@.len() == i,
            p@[0] == (FreqPoint::Exact { value: lower }),
            forall|t: int|
                0 < t < i ==> p@[t] == if logarithmic {
                    (FreqPoint::LogStep { lower, upper, i: t as usize, n })
                } else {
                    (FreqPoint::LinStep { lower, upper, i: t as usize, n })
                },
        decreases n - i,
    {
        if logarithmic {
            p.push(FreqPoint::LogStep { lower, upper, i, n });
        } else {
            p.push(FreqPoint::LinStep { lower, upper, i, n });
        }
        i += 1;
    }
    p.push(FreqPoint::Exact { value: upper });
    proof {
        assert(p@ =~~= grid_plan(lower, upper, n as int, logarithmic));
    }
    Ok(p)
}

/// First-order low-pass; its transfer function is
/// `H(jw) = jw / (1 + jw/wc)` with `wc = 2 pi` times the corner
/// frequency.
pub struct FirstOrderLowPass {
    /// Corner frequency in Hz (bit pattern).
    pub corner_frequency_hz: u64,
}

/// Bit pattern of the default low-pass corner frequency, 4000 Hz.
pub const FOLP_CORNER_HZ_BITS: u64 = 0x40AF400000000000;

impl FirstOrderLowPass {
    /// The default low-pass, with a 4 kHz corner.
    pub fn new() -> (r: Self)
        ensures
            r.corner_frequency_hz == FOLP_CORNER_HZ_BITS,
    {
        FirstOrderLowPass { corner_frequency_hz: FOLP_CORNER_HZ_BITS }
    }
}

/// Fourth-order Bessel filter; its transfer function is
/// `H(jw) = beta[0]*w_bf^4 / sum_i beta[i]*w_bf^(4-i)*(jw)^i`.
pub struct BesselFilter {
    /// Filter frequency in rad/s (bit pattern).
    pub w_bf: u64,
    /// The five denominator coefficients (bit patterns).
    pub beta: [u64; 5],
}

/// Bit pattern of the default Bessel filter frequency, `2 pi * 2200` rad/s.
pub const BESSEL_W_BF_BITS: u64 = 0x40CAFF80FB853C71;

/// Bit pattern of 1.
pub const ONE_BITS: u64 = 0x3FF0000000000000;

/// Bit patterns of the middle Bessel coefficients 3.20108587, 4.39155033
/// and 3.12393994.
pub const BESSEL_BETA_1_BITS: u64 = 0x40099BD2E89AB3A0;

pub const BESSEL_BETA_2_BITS: u64 = 0x401190F291D85A1F;

pub const BESSEL_BETA_3_BITS: u64 = 0x4008FDD43927BEE1;

impl BesselFilter {
    /// The default fourth-order Bessel filter at `2 pi * 2.2 kHz`.
    pub fn new() -> (r: Self)
        ensures
            r.w_bf == BESSEL_W_BF_BITS,
            r.beta@ == seq![
                ONE_BITS,
                BESSEL_BETA_1_BITS,
                BESSEL_BETA_2_BITS,
                BESSEL_BETA_3_BITS,
                ONE_BITS,
            ],
    {
        let r = BesselFilter {
            w_bf: BESSEL_W_BF_BITS,
            beta: [
                ONE_BITS,
                BESSEL_BETA_1_BITS,
                BESSEL_BETA_2_BITS,
                BESSEL_BETA_3_BITS,
                ONE_BITS,
            ],
        };
        proof {
            assert(r.beta@ =~~= seq![
                ONE_BITS,
                BESSEL_BETA_1_BITS,
                BESSEL_BETA_2_BITS,
                BESSEL_BETA_3_BITS,
                ONE_BITS,
            ]);
        }
        r
    }
}

/// Proportional-integral compensator; its transfer function is
/// `H(jw) = kp + ki/jw`.
pub struct PICompensator {
    /// Proportional gain (bit pattern).
    pub kp: u64,
    /// Integral gain (bit pattern).
    pub ki: u64,
}

/// Bit pattern of the default proportional gain, 70000.
pub const PI_KP_BITS: u64 = 0x40F1170000000000;

/// Bit pattern of the default integral gain, 500000.
pub const PI_KI_BITS: u64 = 0x411E848000000000;

impl PICompensator {
    /// The default compensator, `kp = 7e4`, `ki = 5e5`.
    pub fn new() -> (r: Self)
        ensures
            r.kp == PI_KP_BITS,
            r.ki == PI_KI_BITS,
    {
        PICompensator { kp: PI_KP_BITS, ki: PI_KI_BITS }
    }
}

} // verus!
