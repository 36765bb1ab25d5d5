use vstd::prelude::*;
use crate::constants::FIXED_POINT_SCALE;
use crate::error::AmmError;

verus! {

/// A non-negative rational number held as an integer count of
/// `1 / FIXED_POINT_SCALE` units. Every operation is checked; results that
/// are not integral in those units are rounded toward zero.
#[derive(Clone, Copy, Debug, PartialEq, Eq, Structural)]
pub struct FixedPoint {
    pub raw: u64,
}

pub open spec fn scale() -> int {
    FIXED_POINT_SCALE as int
}

impl FixedPoint {
    pub fn from_raw(raw: u64) -> (r: FixedPoint)
        ensures
            r.raw == raw,
    {
        FixedPoint { raw }
    }

    pub fn zero() -> (r: FixedPoint)
        ensures
            r.raw == 0,
    {
        FixedPoint { raw: 0 }
    }

    pub fn one() -> (r: FixedPoint)
        ensures
            r.raw == scale(),
    {
        FixedPoint { raw: FIXED_POINT_SCALE }
    }

    /// The whole number `n`.
    pub fn from_int(n: u64) -> (r: Result<FixedPoint, AmmError>)
        ensures
            n * scale() <= u64::MAX ==> r == Ok::<FixedPoint, AmmError>(FixedPoint { raw: (n * scale()) as u64 }),
            n * scale() > u64::MAX ==> r == Err::<FixedPoint, AmmError>(AmmError::Overflow),
    {
        match n.checked_mul(FIXED_POINT_SCALE) {
            Some(raw) => Ok(FixedPoint { raw }),
            None => Err(AmmError::Overflow),
        }
    }

    /// `num / den`, rounded toward zero; a zero denominator has no value.
    pub fn from_fraction(num: u64, den: u64) -> (r: Result<FixedPoint, AmmError>)
        ensures
            den == 0 ==> r == Err::<FixedPoint, AmmError>(AmmError::Overflow),
            den > 0 && num * scale() / den as int <= u64::MAX ==> r == Ok::<FixedPoint, AmmError>(
                FixedPoint { raw: (num * scale() / den as int) as u64 },
            ),
            den > 0 && num * scale() / den as int > u64::MAX ==> r == Err::<FixedPoint, AmmError>(AmmError::Overflow),
    {
        if den == 0 {
            return Err(AmmError::Overflow);
        }
        assert(num * scale() <= u64::MAX * 1_000_000_000) by (nonlinear_arith)
            requires num <= u64::MAX;
        let wide: u128 = (num as u128) * (FIXED_POINT_SCALE as u128) / (den as u128);
        if wide > u64::MAX as u128 {
            Err(AmmError::Overflow)
        } else {
            Ok(FixedPoint { raw: wide as u64 })
        }
    }

    pub fn checked_add(self, other: FixedPoint) -> (r: Result<FixedPoint, AmmError>)
        ensures
            self.raw + other.raw <= u64::MAX ==> r == Ok::<FixedPoint, AmmError>(FixedPoint { raw: (self.raw + other.raw) as u64 }),
            self.raw + other.raw > u64::MAX ==> r == Err::<FixedPoint, AmmError>(AmmError::Overflow),
    {
        match self.raw.checked_add(other.raw) {
            Some(raw) => Ok(FixedPoint { raw }),
            None => Err(AmmError::Overflow),
        }
    }

    pub fn checked_sub(self, other: FixedPoint) -> (r: Result<FixedPoint, AmmError>)
        ensures
            other.raw <= self.raw ==> r == Ok::<FixedPoint, AmmError>(FixedPoint { raw: (self.raw - other.raw) as u64 }),
            other.raw > self.raw ==> r == Err::<FixedPoint, AmmError>(AmmError::Underflow),
    {
        if other.raw > self.raw {
            Err(AmmError::Underflow)
        } else {
            Ok(FixedPoint { raw: self.raw - other.raw })
        }
    }

    /// Product, computed on a 128-bit intermediate and rounded toward zero.
    pub fn checked_mul(self, other: FixedPoint) -> (r: Result<FixedPoint, AmmError>)
        ensures
            self.raw * other.raw / scale() <= u64::MAX ==> r == Ok::<FixedPoint, AmmError>(
                FixedPoint { raw: (self.raw * other.raw / scale()) as u64 },
            ),
            self.raw * other.raw / scale() > u64::MAX ==> r == Err::<FixedPoint, AmmError>(AmmError::Overflow),
    {
        assert(self.raw * other.raw <= u64::MAX * u64::MAX) by (nonlinear_arith)
            requires self.raw <= u64::MAX, other.raw <= u64::MAX;
        let wide: u128 = (self.raw as u128) * (other.raw as u128) / (FIXED_POINT_SCALE as u128);
        if wide > u64::MAX as u128 {
            Err(AmmError::Overflow)
        } else {
            Ok(FixedPoint { raw: wide as u64 })
        }
    }

    /// Quotient, computed on a 128-bit intermediate and rounded toward zero;
    /// division by zero has no value.
    pub fn checked_div(self, other: FixedPoint) -> (r: Result<FixedPoint, AmmError>)
        ensures
            other.raw == 0 ==> r == Err::<FixedPoint, AmmError>(AmmError::Overflow),
            other.raw > 0 && self.raw * scale() / other.raw as int <= u64::MAX ==> r == Ok::<FixedPoint, AmmError>(
                FixedPoint { raw: (self.raw * scale() / other.raw as int) as u64 },
            ),
            other.raw > 0 && self.raw * scale() / other.raw as int > u64::MAX ==> r == Err::<FixedPoint, AmmError>(
                AmmError::Overflow,
            ),
    {
        if other.raw == 0 {
            return Err(AmmError::Overflow);
        }
        assert(self.raw * scale() <= u64::MAX * 1_000_000_000) by (nonlinear_arith)
            requires self.raw <= u64::MAX;
        let wide: u128 = (self.raw as u128) * (FIXED_POINT_SCALE as u128) / (other.raw as u128);
        if wide > u64::MAX as u128 {
            Err(AmmError::Overflow)
        } else {
            Ok(FixedPoint { raw: wide as u64 })
        }
    }

    /// `self * n` as a whole number, rounded toward zero.
    pub fn mul_int_floor(self, n: u64) -> (r: Result<u64, AmmError>)
        ensures
            self.raw * n / scale() <= u64::MAX ==> r == Ok::<u64, AmmError>((self.raw * n / scale()) as u64),
            self.raw * n / scale() > u64::MAX ==> r == Err::<u64, AmmError>(AmmError::Overflow),
    {
        assert(self.raw * n <= u64::MAX * u64::MAX) by (nonlinear_arith)
            requires self.raw <= u64::MAX, n <= u64::MAX;
        let wide: u128 = (self.raw as u128) * (n as u128) / (FIXED_POINT_SCALE as u128);
        if wide > u64::MAX as u128 {
            Err(AmmError::Overflow)
        } else {
            Ok(wide as u64)
        }
    }

    pub fn less_than(self, other: FixedPoint) -> (r: bool)
        ensures
            r == (self.raw < other.raw),
    {
        self.raw < other.raw
    }

    pub fn less_or_equal(self, other: FixedPoint) -> (r: bool)
        ensures
            r == (self.raw <= other.raw),
    {
        self.raw <= other.raw
    }
}

} // verus!
