//! Fixed-precision physical quantities: `Distance` (centimeters), `Duration`
//! (milliseconds), `Speed` and `Acceleration` (tenths of millimeters per
//! second, and per second squared). Each value is a scaled `i32`, so every
//! operation is an exact function of its integer inputs and results are
//! bit-reproducible across runs.
//!
//! Addition and subtraction report overflow as a typed contract violation
//! instead of wrapping; division by a zero quantity is reported the same way.
//! Conversions between resolutions round to the nearest unit (ties away from
//! zero) and saturate at the `i32` range, which is how the simulation's
//! original floating-point conversions behaved.

use vstd::prelude::*;

use crate::math::{clamp_i32, is_rounded_sqrt, round_div, round_rat, round_rat_i128, rounded_sqrt_u64};

verus! {

/// A contract violation inside quantity arithmetic. These indicate a bug in
/// the calling subsystem and are never recoverable; the payload names the
/// offending operands in raw integer units.
#[derive(Clone, Copy, Debug, PartialEq, Eq, Structural)]
pub enum UnitsError {
    /// An addition or subtraction left the `i32` range of the backing unit.
    Overflow { lhs: i32, rhs: i32 },
    /// A quantity was divided by the zero quantity of the same type.
    DivisionByZero { numerator: i32 },
}

/// A dimensionless ratio of two like quantities, kept exact as a fraction
/// with a positive denominator.
#[derive(Clone, Copy, Debug, PartialEq, Eq, Structural)]
pub struct Ratio {
    pub num: i64,
    pub den: i64,
}

impl Ratio {
    /// Well-formed ratios keep the sign in the numerator.
    pub open spec fn wf(self) -> bool {
        self.den > 0
    }

    /// Does this ratio represent exactly one?
    pub fn is_one(&self) -> (b: bool)
        ensures
            b == (self.num == self.den),
    {
        self.num == self.den
    }
}

/// Distance at centimeter resolution; can be negative.
#[derive(Clone, Copy, Debug, PartialEq, Eq, Structural, PartialOrd)]
pub struct Distance {
    pub cm: i32,
}

impl View for Distance {
    type V = int;

    open spec fn view(&self) -> int {
        self.cm as int
    }
}

/// What `Distance::add` returns: the exact sum, or an overflow report.
pub open spec fn spec_distance_add(a: Distance, b: Distance) -> Result<Distance, UnitsError> {
    if i32::MIN <= a@ + b@ <= i32::MAX {
        Ok(Distance { cm: (a@ + b@) as i32 })
    } else {
        Err(UnitsError::Overflow { lhs: a.cm, rhs: b.cm })
    }
}

/// What `Distance::sub` returns: the exact difference, or an overflow report.
pub open spec fn spec_distance_sub(a: Distance, b: Distance) -> Result<Distance, UnitsError> {
    if i32::MIN <= a@ - b@ <= i32::MAX {
        Ok(Distance { cm: (a@ - b@) as i32 })
    } else {
        Err(UnitsError::Overflow { lhs: a.cm, rhs: b.cm })
    }
}

/// What dividing two like quantities returns: the exact fraction with a
/// positive denominator, or a division-by-zero report.
pub open spec fn spec_quantity_div(a: i32, b: i32) -> Result<Ratio, UnitsError> {
    if b == 0 {
        Err(UnitsError::DivisionByZero { numerator: a })
    } else if b > 0 {
        Ok(Ratio { num: a as int as i64, den: b as int as i64 })
    } else {
        Ok(Ratio { num: (-(a as int)) as i64, den: (-(b as int)) as i64 })
    }
}

impl Distance {
    /// The zero distance.
    pub fn zero() -> (r: Distance)
        ensures
            r@ == 0,
    {
        Distance { cm: 0 }
    }

    /// The largest representable distance.
    pub fn max() -> (r: Distance)
        ensures
            r@ == i32::MAX,
    {
        Distance { cm: i32::MAX }
    }

    /// Construct from a whole number of centimeters.
    pub fn const_cm(value: i32) -> (r: Distance)
        ensures
            r@ == value,
    {
        Distance { cm: value }
    }

    /// Exact sum; overflow past the `i32` centimeter range is a fatal
    /// contract violation, never a silent wrap.
    pub fn add(self, other: Distance) -> (r: Result<Distance, UnitsError>)
        ensures
            r == spec_distance_add(self, other),
    {
        match self.cm.checked_add(other.cm) {
            Some(cm) => Ok(Distance { cm }),
            None => Err(UnitsError::Overflow { lhs: self.cm, rhs: other.cm }),
        }
    }

    /// Exact difference; overflow is a fatal contract violation.
    pub fn sub(self, other: Distance) -> (r: Result<Distance, UnitsError>)
        ensures
            r == spec_distance_sub(self, other),
    {
        match self.cm.checked_sub(other.cm) {
            Some(cm) => Ok(Distance { cm }),
            None => Err(UnitsError::Overflow { lhs: self.cm, rhs: other.cm }),
        }
    }

    /// Negation. The one unrepresentable case, negating `i32::MIN`
    /// centimeters, is excluded by contract.
    pub fn neg(self) -> (r: Distance)
        requires
            self@ != i32::MIN,
        ensures
            r@ == -self@,
    {
        Distance { cm: -self.cm }
    }

    /// Absolute value; the magnitude of `i32::MIN` centimeters saturates to
    /// `Distance::MAX`.
    pub fn abs(self) -> (r: Distance)
        ensures
            r@ == clamp_i32(if self@ < 0 { -self@ } else { self@ }),
    {
        if self.cm >= 0 {
            self
        } else if self.cm == i32::MIN {
            Distance::max()
        } else {
            Distance { cm: -self.cm }
        }
    }

    /// Square root of a non-negative distance, rounded to the nearest
    /// centimeter: the result squared is within rounding of `100 * self`
    /// square centimeters, since lengths are measured in meters.
    pub fn sqrt(self) -> (r: Distance)
        requires
            self@ >= 0,
        ensures
            is_rounded_sqrt(100 * self@, r@),
    {
        let square: u64 = (self.cm as u64) * 100;
        let root: u64 = rounded_sqrt_u64(square);
        proof {
            if root > 500_000 {
                assert((2 * (root as int) - 1) * (2 * (root as int) - 1)
                    >= 1_000_001 * 1_000_001) by (nonlinear_arith)
                    requires
                        root >= 500_001u64,
                ;
                assert(false);
            }
        }
        Distance { cm: root as i32 }
    }

    /// Ratio of two distances; dividing by the zero distance is a fatal
    /// contract violation naming the numerator.
    pub fn div(self, other: Distance) -> (r: Result<Ratio, UnitsError>)
        ensures
            r == spec_quantity_div(self.cm, other.cm),
            r matches Ok(q) ==> q.wf(),
    {
        quantity_div(self.cm, other.cm)
    }

    /// Scalar multiply by a dimensionless ratio, rounded to the nearest
    /// centimeter and saturated at the `i32` range.
    pub fn scale(self, factor: Ratio) -> (r: Distance)
        requires
            factor.wf(),
        ensures
            r@ == clamp_i32(round_div(self@ * factor.num, factor.den as int)),
    {
        Distance { cm: scaled_i32(self.cm, factor) }
    }
}

/// Duration at millisecond resolution; can be negative, so the same value
/// also serves as a moment in time.
#[derive(Clone, Copy, Debug, PartialEq, Eq, Structural, PartialOrd)]
pub struct Duration {
    pub ms: i32,
}

impl View for Duration {
    type V = int;

    open spec fn view(&self) -> int {
        self.ms as int
    }
}

/// What `Duration::sub` returns: the exact difference, or an overflow report.
pub open spec fn spec_duration_sub(a: Duration, b: Duration) -> Result<Duration, UnitsError> {
    if i32::MIN <= a@ - b@ <= i32::MAX {
        Ok(Duration { ms: (a@ - b@) as i32 })
    } else {
        Err(UnitsError::Overflow { lhs: a.ms, rhs: b.ms })
    }
}

impl Duration {
    /// The zero duration.
    pub fn zero() -> (r: Duration)
        ensures
            r@ == 0,
    {
        Duration { ms: 0 }
    }

    /// Construct from a whole number of milliseconds.
    pub fn const_ms(value: i32) -> (r: Duration)
        ensures
            r@ == value,
    {
        Duration { ms: value }
    }

    /// The smaller of two durations.
    pub fn min(self, other: Duration) -> (r: Duration)
        ensures
            r@ == if self@ <= other@ {
                self@
            } else {
                other@
            },
    {
        if self.ms <= other.ms {
            self
        } else {
            other
        }
    }

    /// Exact difference; overflow is a fatal contract violation.
    pub fn sub(self, other: Duration) -> (r: Result<Duration, UnitsError>)
        ensures
            r == spec_duration_sub(self, other),
    {
        match self.ms.checked_sub(other.ms) {
            Some(ms) => Ok(Duration { ms }),
            None => Err(UnitsError::Overflow { lhs: self.ms, rhs: other.ms }),
        }
    }

    /// Ratio of two durations; dividing by the zero duration is a fatal
    /// contract violation naming the numerator. Dividing a nonzero duration
    /// by itself always yields the unit ratio: see `lemma_div_self_is_one`.
    pub fn div(self, other: Duration) -> (r: Result<Ratio, UnitsError>)
        ensures
            r == spec_quantity_div(self.ms, other.ms),
            r matches Ok(q) ==> q.wf(),
    {
        quantity_div(self.ms, other.ms)
    }

    /// Scalar multiply by a dimensionless ratio, rounded to the nearest
    /// millisecond and saturated at the `i32` range.
    pub fn scale(self, factor: Ratio) -> (r: Duration)
        requires
            factor.wf(),
        ensures
            r@ == clamp_i32(round_div(self@ * factor.num, factor.den as int)),
    {
        Duration { ms: scaled_i32(self.ms, factor) }
    }

    /// Distance covered at `other` for this long: `ms * raw / 10^5`
    /// centimeters, rounded to the nearest centimeter and saturated.
    pub fn times_speed(self, other: Speed) -> (r: Distance)
        ensures
            r@ == clamp_i32(round_div(self@ * other@, 100_000)),
    {
        Distance { cm: mul_div_i32(self.ms, other.raw, 100_000) }
    }
}

/// Speed in units of 10^-4 meters per second; can be negative.
#[derive(Clone, Copy, Debug, PartialEq, Eq, Structural, PartialOrd)]
pub struct Speed {
    pub raw: i32,
}

impl View for Speed {
    type V = int;

    open spec fn view(&self) -> int {
        self.raw as int
    }
}

/// What `Speed::add` returns: the exact sum, or an overflow report.
pub open spec fn spec_speed_add(a: Speed, b: Speed) -> Result<Speed, UnitsError> {
    if i32::MIN <= a@ + b@ <= i32::MAX {
        Ok(Speed { raw: (a@ + b@) as i32 })
    } else {
        Err(UnitsError::Overflow { lhs: a.raw, rhs: b.raw })
    }
}

/// What `Speed::sub` returns: the exact difference, or an overflow report.
pub open spec fn spec_speed_sub(a: Speed, b: Speed) -> Result<Speed, UnitsError> {
    if i32::MIN <= a@ - b@ <= i32::MAX {
        Ok(Speed { raw: (a@ - b@) as i32 })
    } else {
        Err(UnitsError::Overflow { lhs: a.raw, rhs: b.raw })
    }
}

impl Speed {
    /// The zero speed.
    pub fn zero() -> (r: Speed)
        ensures
            r@ == 0,
    {
        Speed { raw: 0 }
    }

    /// Construct from a whole number of 10^-4 meter-per-second units.
    pub fn const_sorta_meters_per_second(value: i32) -> (r: Speed)
        ensures
            r@ == value,
    {
        Speed { raw: value }
    }

    /// Exact sum; overflow is a fatal contract violation.
    pub fn add(self, other: Speed) -> (r: Result<Speed, UnitsError>)
        ensures
            r == spec_speed_add(self, other),
    {
        match self.raw.checked_add(other.raw) {
            Some(raw) => Ok(Speed { raw }),
            None => Err(UnitsError::Overflow { lhs: self.raw, rhs: other.raw }),
        }
    }

    /// Exact difference; overflow is a fatal contract violation.
    pub fn sub(self, other: Speed) -> (r: Result<Speed, UnitsError>)
        ensures
            r == spec_speed_sub(self, other),
    {
        match self.raw.checked_sub(other.raw) {
            Some(raw) => Ok(Speed { raw }),
            None => Err(UnitsError::Overflow { lhs: self.raw, rhs: other.raw }),
        }
    }

    /// Scalar multiply by a dimensionless ratio, rounded to the nearest unit
    /// and saturated at the `i32` range.
    pub fn scale(self, factor: Ratio) -> (r: Speed)
        requires
            factor.wf(),
        ensures
            r@ == clamp_i32(round_div(self@ * factor.num, factor.den as int)),
    {
        Speed { raw: scaled_i32(self.raw, factor) }
    }

    /// Distance covered in `other` at this speed: `raw * ms / 10^5`
    /// centimeters, rounded to the nearest centimeter and saturated.
    pub fn times_duration(self, other: Duration) -> (r: Distance)
        ensures
            r@ == clamp_i32(round_div(self@ * other@, 100_000)),
    {
        Distance { cm: mul_div_i32(self.raw, other.ms, 100_000) }
    }

    /// Acceleration that reaches this speed in `other`: `raw * 1000 / ms`
    /// units, rounded and saturated. Dividing by the zero duration is a
    /// fatal contract violation.
    pub fn div_duration(self, other: Duration) -> (r: Result<Acceleration, UnitsError>)
        ensures
            other@ == 0 ==> (r matches Err(e) && e == (UnitsError::DivisionByZero {
                numerator: self.raw,
            })),
            other@ != 0 ==> (r matches Ok(a) && a@ == clamp_i32(
                round_rat(1000 * self@, other@),
            )),
    {
        if other.ms == 0 {
            Err(UnitsError::DivisionByZero { numerator: self.raw })
        } else {
            Ok(Acceleration { raw: round_rat_i128(1000 * (self.raw as i128), other.ms as i128) })
        }
    }

    /// Time to reach this speed at acceleration `other`: `raw * 1000 / a`
    /// milliseconds, rounded and saturated. Dividing by the zero
    /// acceleration is a fatal contract violation.
    pub fn div_accel(self, other: Acceleration) -> (r: Result<Duration, UnitsError>)
        ensures
            other@ == 0 ==> (r matches Err(e) && e == (UnitsError::DivisionByZero {
                numerator: self.raw,
            })),
            other@ != 0 ==> (r matches Ok(d) && d@ == clamp_i32(
                round_rat(1000 * self@, other@),
            )),
    {
        if other.raw == 0 {
            Err(UnitsError::DivisionByZero { numerator: self.raw })
        } else {
            Ok(Duration { ms: round_rat_i128(1000 * (self.raw as i128), other.raw as i128) })
        }
    }
}

/// Acceleration in units of 10^-4 meters per second squared; can be
/// negative.
#[derive(Clone, Copy, Debug, PartialEq, Eq, Structural, PartialOrd)]
pub struct Acceleration {
    pub raw: i32,
}

impl View for Acceleration {
    type V = int;

    open spec fn view(&self) -> int {
        self.raw as int
    }
}

impl Acceleration {
    /// The zero acceleration.
    pub fn zero() -> (r: Acceleration)
        ensures
            r@ == 0,
    {
        Acceleration { raw: 0 }
    }

    /// The smaller of two accelerations.
    pub fn min(self, other: Acceleration) -> (r: Acceleration)
        ensures
            r@ == if self@ <= other@ {
                self@
            } else {
                other@
            },
    {
        if self.raw <= other.raw {
            self
        } else {
            other
        }
    }

    /// Speed gained over `other` at this acceleration: `raw * ms / 1000`
    /// units, rounded to the nearest unit and saturated.
    pub fn times_duration(self, other: Duration) -> (r: Speed)
        ensures
            r@ == clamp_i32(round_div(self@ * other@, 1000)),
    {
        Speed { raw: mul_div_i32(self.raw, other.ms, 1000) }
    }
}

/// Adding the zero distance to any value returns that value unchanged.
pub proof fn lemma_distance_add_zero(v: Distance)
    ensures
        spec_distance_add(v, Distance { cm: 0 }) == Ok::<Distance, UnitsError>(v),
{
}

/// Adding the largest representable distance and any positive distance
/// always overflows, and the overflow names both operands.
pub proof fn lemma_distance_add_max_overflows(v: Distance)
    requires
        v@ > 0,
    ensures
        spec_distance_add(Distance { cm: i32::MAX }, v) == Err::<Distance, UnitsError>(
            UnitsError::Overflow { lhs: i32::MAX, rhs: v.cm },
        ),
{
}

/// Dividing any nonzero quantity by itself yields exactly the unit ratio.
/// In particular a nonzero `Duration` divided by itself is exactly one.
pub proof fn lemma_div_self_is_one(a: i32)
    requires
        a != 0,
    ensures
        spec_quantity_div(a, a) matches Ok(q) && q.num == q.den,
{
}

/// Shared body of the like-quantity divisions.
fn quantity_div(a: i32, b: i32) -> (r: Result<Ratio, UnitsError>)
    ensures
        r == spec_quantity_div(a, b),
        r matches Ok(q) ==> q.wf(),
{
    if b == 0 {
        Err(UnitsError::DivisionByZero { numerator: a })
    } else if b > 0 {
        Ok(Ratio { num: a as i64, den: b as i64 })
    } else {
        Ok(Ratio { num: -(a as i64), den: -(b as i64) })
    }
}

/// Shared body of the scalar multiplications: `value * num / den`, rounded
/// to the nearest unit and saturated at the `i32` range.
fn scaled_i32(value: i32, factor: Ratio) -> (r: i32)
    requires
        factor.wf(),
    ensures
        r as int == clamp_i32(round_div(value as int * factor.num, factor.den as int)),
{
    proof {
        assert((value as i128) * (factor.num as i128)
            < 0x2000_0000_0000_0000_0000_0000_0000_0000i128 && (value as i128) * (factor.num
            as i128) > -0x2000_0000_0000_0000_0000_0000_0000_0000i128) by (nonlinear_arith)
            requires
                -0x8000_0000i128 <= value as i128 <= 0x8000_0000i128,
                -0x8000_0000_0000_0000_0000i128 <= factor.num as i128
                    <= 0x8000_0000_0000_0000_0000i128,
        ;
    }
    let num: i128 = (value as i128) * (factor.num as i128);
    round_rat_i128(num, factor.den as i128)
}

/// Shared body of the cross-resolution multiplications: `a * b / den`,
/// rounded to the nearest unit and saturated at the `i32` range.
fn mul_div_i32(a: i32, b: i32, den: i64) -> (r: i32)
    requires
        den > 0,
    ensures
        r as int == clamp_i32(round_div(a as int * b as int, den as int)),
{
    proof {
        assert(-0x4000_0000_0000_0000i128 <= (a as i128) * (b as i128)
            <= 0x4000_0000_0000_0000i128) by (nonlinear_arith)
            requires
                -0x8000_0000i128 <= a as i128 <= 0x8000_0000i128,
                -0x8000_0000i128 <= b as i128 <= 0x8000_0000i128,
        ;
    }
    let num: i128 = (a as i128) * (b as i128);
    round_rat_i128(num, den as i128)
}

} // verus!
