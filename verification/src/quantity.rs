//! Fixed-point quantities: fuel, slew times, data volumes and costs.
//!
//! A [`Quantity`] is a signed binary fixed-point number with 40 integer bits
//! and 24 fractional bits, the format `fixed::types::I40F24`. The library
//! holds the 64 bits of such a number and leaves the arithmetic to the
//! `fixed` crate.
use fixed::types::I40F24;
use vstd::prelude::*;

verus! {

/// The number of raw units that make up the quantity one.
pub const UNITS_PER_ONE: i64 = 0x100_0000;

/// The least count that no quantity can hold.
pub const COUNT_LIMIT: u64 = 0x80_0000_0000;

/// A fixed-point number, held as its raw bits: the number stands for
/// `bits / 2^24`.
#[derive(Clone, Copy, Debug, PartialEq, Eq, Structural, PartialOrd, Ord, Hash)]
pub struct Quantity {
    pub bits: i64,
}

impl View for Quantity {
    type V = Quantity;

    open spec fn view(&self) -> Quantity {
        *self
    }
}

/// `FixedI64::checked_add` on two numbers of the format I40F24: the sum of
/// the raw bits where it fits in 64 bits, otherwise nothing.
#[verifier::external_body]
fn fixed_checked_add(a: i64, b: i64) -> (sum: Option<i64>)
    ensures
        i64::MIN <= a + b <= i64::MAX ==> sum == Some((a + b) as i64),
        !(i64::MIN <= a + b <= i64::MAX) ==> sum.is_none(),
{
    I40F24::from_bits(a).checked_add(I40F24::from_bits(b)).map(|s| s.to_bits())
}

/// `FixedI64::checked_sub` on two numbers of the format I40F24: the
/// difference of the raw bits where it fits in 64 bits, otherwise nothing.
#[verifier::external_body]
fn fixed_checked_sub(a: i64, b: i64) -> (difference: Option<i64>)
    ensures
        i64::MIN <= a - b <= i64::MAX ==> difference == Some((a - b) as i64),
        !(i64::MIN <= a - b <= i64::MAX) ==> difference.is_none(),
{
    I40F24::from_bits(a).checked_sub(I40F24::from_bits(b)).map(|d| d.to_bits())
}

/// The operator `>=` of `FixedI64` on two numbers of the format I40F24:
/// numbers of one format compare as their raw bits do.
#[verifier::external_body]
fn fixed_ge(a: i64, b: i64) -> (holds: bool)
    ensures
        holds == (a >= b),
{
    I40F24::from_bits(a) >= I40F24::from_bits(b)
}

/// `FixedI64::checked_from_num` from a 64-bit integer to the format I40F24:
/// the integer shifted into the integer bits where it fits in the 40 of
/// them, otherwise nothing.
#[verifier::external_body]
fn fixed_checked_from_whole(n: i64) -> (bits: Option<i64>)
    ensures
        -COUNT_LIMIT <= n < COUNT_LIMIT ==> bits == Some((n * UNITS_PER_ONE) as i64),
        !(-COUNT_LIMIT <= n < COUNT_LIMIT) ==> bits.is_none(),
{
    I40F24::checked_from_num(n).map(|q| q.to_bits())
}

/// `FixedI64::to_num` from the format I40F24 to a 64-bit integer: the
/// fractional bits are discarded, which rounds towards minus infinity. The
/// 40 integer bits always fit.
#[verifier::external_body]
fn fixed_to_whole(bits: i64) -> (whole: i64)
    ensures
        whole == bits as int / UNITS_PER_ONE as int,
{
    I40F24::from_bits(bits).to_num::<i64>()
}

impl Quantity {
    /// The quantity with the given raw bits.
    pub fn from_bits(bits: i64) -> (q: Quantity)
        ensures
            q.bits == bits,
    {
        Quantity { bits }
    }

    /// The raw bits of the quantity.
    pub fn to_bits(self) -> (bits: i64)
        ensures
            bits == self.bits,
    {
        self.bits
    }

    /// The quantity that stands for the whole number `n`, if it is small
    /// enough to have one.
    pub fn from_count(n: u64) -> (q: Option<Quantity>)
        ensures
            n < COUNT_LIMIT ==> q == Some(Quantity { bits: (n * UNITS_PER_ONE) as i64 }),
            n >= COUNT_LIMIT ==> q.is_none(),
    {
        if n < COUNT_LIMIT {
            Quantity::from_whole(n as i64)
        } else {
            None
        }
    }

    /// The quantity that stands for the whole number `n`, if it is within
    /// the range of quantities.
    pub fn from_whole(n: i64) -> (q: Option<Quantity>)
        ensures
            -COUNT_LIMIT <= n < COUNT_LIMIT ==> q == Some(
                Quantity { bits: (n * UNITS_PER_ONE) as i64 },
            ),
            !(-COUNT_LIMIT <= n < COUNT_LIMIT) ==> q.is_none(),
    {
        match fixed_checked_from_whole(n) {
            Some(bits) => Some(Quantity { bits }),
            None => None,
        }
    }

    /// The whole part of the quantity: the greatest whole number that is
    /// not above it.
    pub open spec fn whole(self) -> int {
        self.bits as int / UNITS_PER_ONE as int
    }

    /// The whole part of the quantity.
    pub fn to_whole(self) -> (whole: i64)
        ensures
            whole == self.whole(),
    {
        fixed_to_whole(self.bits)
    }

    /// The quantity zero.
    pub fn zero() -> (q: Quantity)
        ensures
            q.bits == 0,
    {
        Quantity { bits: 0 }
    }

    /// The quantity one.
    pub fn one() -> (q: Quantity)
        ensures
            q.bits == UNITS_PER_ONE,
    {
        Quantity { bits: UNITS_PER_ONE }
    }

    /// Whether `self + rhs` is a quantity.
    pub open spec fn can_add(self, rhs: Quantity) -> bool {
        i64::MIN <= self.bits + rhs.bits <= i64::MAX
    }

    /// Whether `self - rhs` is a quantity.
    pub open spec fn can_sub(self, rhs: Quantity) -> bool {
        i64::MIN <= self.bits - rhs.bits <= i64::MAX
    }

    /// The sum, meaningful where `can_add` holds.
    pub open spec fn plus(self, rhs: Quantity) -> Quantity {
        Quantity { bits: (self.bits + rhs.bits) as i64 }
    }

    /// The difference, meaningful where `can_sub` holds.
    pub open spec fn minus(self, rhs: Quantity) -> Quantity {
        Quantity { bits: (self.bits - rhs.bits) as i64 }
    }

    /// The sum, or nothing where it is out of range.
    pub fn checked_add(self, rhs: Quantity) -> (sum: Option<Quantity>)
        ensures
            self.can_add(rhs) ==> sum == Some(self.plus(rhs)),
            !self.can_add(rhs) ==> sum.is_none(),
    {
        match fixed_checked_add(self.bits, rhs.bits) {
            Some(bits) => Some(Quantity { bits }),
            None => None,
        }
    }

    /// The difference, or nothing where it is out of range.
    pub fn checked_sub(self, rhs: Quantity) -> (difference: Option<Quantity>)
        ensures
            self.can_sub(rhs) ==> difference == Some(self.minus(rhs)),
            !self.can_sub(rhs) ==> difference.is_none(),
    {
        match fixed_checked_sub(self.bits, rhs.bits) {
            Some(bits) => Some(Quantity { bits }),
            None => None,
        }
    }

    /// Whether the quantity is at least `rhs`.
    pub fn at_least(self, rhs: Quantity) -> (holds: bool)
        ensures
            holds == (self.bits >= rhs.bits),
    {
        fixed_ge(self.bits, rhs.bits)
    }
}

} // verus!
