//! Lengths and other measures, tagged with their unit.
use vstd::prelude::*;
use std::marker::PhantomData;

verus! {

/// English metric units: 914400 to the inch.
#[derive(Debug, Clone, Copy, PartialEq, Eq)]
pub struct Emu;

/// Twentieths of a point.
#[derive(Debug, Clone, Copy, PartialEq, Eq)]
pub struct Twips;

/// Halves of a point.
#[derive(Debug, Clone, Copy, PartialEq, Eq)]
pub struct HalfPoints;

/// Hundredths of a point.
#[derive(Debug, Clone, Copy, PartialEq, Eq)]
pub struct HundredthPoints;

/// Thousandths of a percent.
#[derive(Debug, Clone, Copy, PartialEq, Eq)]
pub struct ThousandthPercent;

/// Sixty-thousandths of a degree.
#[derive(Debug, Clone, Copy, PartialEq, Eq)]
pub struct SixtieThousandthDeg;

/// A whole number of units.
#[derive(Debug, PartialEq, Eq)]
pub struct Dimension<U> {
    pub value: i64,
    pub unit: PhantomData<U>,
}

impl<U> Clone for Dimension<U> {
    fn clone(&self) -> (r: Self)
        ensures
            r == *self,
    {
        Dimension { value: self.value, unit: PhantomData }
    }
}

impl<U> Copy for Dimension<U> {

}

/// The measure of `value` units.
pub open spec fn units<U>(value: i64) -> Dimension<U> {
    Dimension { value, unit: PhantomData }
}

/// Division that rounds toward zero.
pub open spec fn quotient(n: int, d: int) -> int {
    if n >= 0 {
        n / d
    } else {
        -((-n) / d)
    }
}

impl<U> Dimension<U> {
    /// The measure of `value` units.
    pub fn new(value: i64) -> (r: Self)
        ensures
            r == units::<U>(value),
            r.value == value,
    {
        Dimension { value, unit: PhantomData }
    }

    /// The number of units.
    pub fn raw(self) -> (r: i64)
        ensures
            r == self.value,
    {
        self.value
    }
}

/// Divides, rounding toward zero.
pub fn divide(n: i64, d: i64) -> (r: i64)
    requires
        d > 1,
    ensures
        r == quotient(n as int, d as int),
{
    if n >= 0 {
        assert(n as int / d as int <= n) by (nonlinear_arith)
            requires
                n >= 0,
                d > 1,
        ;
        n / d
    } else {
        let m: i128 = -(n as i128);
        let q: i128 = m / (d as i128);
        assert(0 <= m as int / d as int <= m) by (nonlinear_arith)
            requires
                m >= 0,
                d > 1,
        ;
        (-q) as i64
    }
}

/// The whole number nearest to a quotient. A half counts away from nothing.
pub open spec fn nearest(n: int, d: int) -> int {
    if n >= 0 {
        (2 * n + d) / (2 * d)
    } else {
        -((2 * -n + d) / (2 * d))
    }
}

/// The whole number nearest to a quotient.
pub fn divide_nearest(n: i128, d: i128) -> (r: i128)
    requires
        -0x4000_0000_0000_0000_0000_0000_0000_0000 <= n <= 0x4000_0000_0000_0000_0000_0000_0000_0000,
        0 < d < 0x1_0000_0000_0000_0000_0000_0000,
    ensures
        r == nearest(n as int, d as int),
{
    let m: u128 = if n >= 0 {
        n as u128
    } else {
        (-n) as u128
    };
    let top: u128 = 2 * m + d as u128;
    let below: u128 = 2 * d as u128;
    let q: u128 = top / below;
    assert(q <= top as int / 2) by (nonlinear_arith)
        requires
            q == top as int / below as int,
            below >= 2,
            top >= 0,
    ;
    if n >= 0 {
        q as i128
    } else {
        -(q as i128)
    }
}

/// A number, held at the ends of the range of a measure.
pub open spec fn within_range(n: int) -> i64 {
    if n < i64::MIN {
        i64::MIN
    } else if n > i64::MAX {
        i64::MAX
    } else {
        n as i64
    }
}

/// A number, held at the ends of the range of a measure.
pub fn hold(n: i128) -> (r: i64)
    ensures
        r == within_range(n as int),
{
    if n < i64::MIN as i128 {
        i64::MIN
    } else if n > i64::MAX as i128 {
        i64::MAX
    } else {
        n as i64
    }
}

impl Dimension<HundredthPoints> {
    /// The measure in half-points, rounded toward zero.
    pub fn to_half_points(self) -> (r: Dimension<HalfPoints>)
        ensures
            r.value == quotient(self.value as int, 50),
    {
        Dimension::new(divide(self.value, 50))
    }
}

} // verus!
