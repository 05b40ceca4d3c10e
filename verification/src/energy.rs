use vstd::prelude::*;
use crate::decimal::{Decimal, EXP_LIMIT};
use crate::errors::DivideByZeroError;
use crate::math::lemma_mul_bound9;
use crate::units::{
    length_scale_exp, length_scale_exp_x, time_scale_exp, time_scale_exp_x, LengthUnit, TimeUnit,
};

verus! {

/// A flight-path length, held in canonical meters.
#[derive(Clone, Copy, PartialEq, Eq, Structural, Debug)]
pub struct LengthQuantity {
    pub meters: Decimal,
}

impl LengthQuantity {
    pub open spec fn wf(&self) -> bool {
        self.meters.mantissa < 1_000_000_000 && -EXP_LIMIT - 10 <= self.meters.exp10 <= EXP_LIMIT
            + 10
    }
}

/// An elapsed time, held in canonical seconds.
#[derive(Clone, Copy, PartialEq, Eq, Structural, Debug)]
pub struct TimeQuantity {
    pub seconds: Decimal,
}

impl TimeQuantity {
    pub open spec fn wf(&self) -> bool {
        self.seconds.mantissa < 1_000_000_000 && -EXP_LIMIT - 10 <= self.seconds.exp10 <= EXP_LIMIT
            + 10
    }
}

/// The neutron rest mass is `NEUTRON_MASS_MANT × 10^NEUTRON_MASS_EXP` kg
/// (1.67493×10⁻²⁷ kg).
pub const NEUTRON_MASS_MANT: u64 = 167_493;

pub const NEUTRON_MASS_EXP: i128 = -32;

/// A kinetic energy, held as the exact rational number of canonical joules
/// `num / den × 10^exp10`, as the energy formula produces it.
#[derive(Clone, Copy, PartialEq, Eq, Structural, Debug)]
pub struct EnergyQuantity {
    pub num: u128,
    pub den: u128,
    pub exp10: i128,
}

impl EnergyQuantity {
    pub open spec fn wf(&self) -> bool {
        &&& 1 <= self.num <= 167_493_000_000_000_000_000_000
        &&& 2 <= self.den <= 2_000_000_000_000_000_000
        &&& -5 * EXP_LIMIT <= self.exp10 <= 5 * EXP_LIMIT
    }
}

/// Normalize a parsed magnitude to canonical meters: the unit's scale is an
/// exact power of ten, so only the exponent moves.
pub fn build_length(mag: Decimal, unit: LengthUnit) -> (r: LengthQuantity)
    requires
        mag.wf(),
    ensures
        r.meters.negative == mag.negative,
        r.meters.mantissa == mag.mantissa,
        r.meters.exp10 == mag.exp10 + length_scale_exp(unit),
        r.wf(),
{
    let e = length_scale_exp_x(unit);
    LengthQuantity { meters: Decimal { negative: mag.negative, mantissa: mag.mantissa, exp10: mag.exp10 + e } }
}

/// Normalize a parsed magnitude to canonical seconds.
pub fn build_time(mag: Decimal, unit: TimeUnit) -> (r: TimeQuantity)
    requires
        mag.wf(),
    ensures
        r.seconds.negative == mag.negative,
        r.seconds.mantissa == mag.mantissa,
        r.seconds.exp10 == mag.exp10 + time_scale_exp(unit),
        r.wf(),
{
    let e = time_scale_exp_x(unit);
    TimeQuantity { seconds: Decimal { negative: mag.negative, mantissa: mag.mantissa, exp10: mag.exp10 + e } }
}

/// E = m·L² / (2·T²) on canonical quantities, as an exact rational number of
/// joules. A zero time is rejected first, then a zero length; negative
/// magnitudes are accepted, and the squares make the result positive.
pub fn compute_energy(time: &TimeQuantity, length: &LengthQuantity) -> (r: Result<
    EnergyQuantity,
    DivideByZeroError,
>)
    requires
        time.wf(),
        length.wf(),
    ensures
        match r {
            Ok(e) => {
                &&& time.seconds.mantissa != 0
                &&& length.meters.mantissa != 0
                &&& e.num == NEUTRON_MASS_MANT * ((length.meters.mantissa as int) * (
                length.meters.mantissa as int))
                &&& e.den == 2 * ((time.seconds.mantissa as int) * (time.seconds.mantissa as int))
                &&& e.exp10 == 2 * length.meters.exp10 - 2 * time.seconds.exp10
                    + NEUTRON_MASS_EXP
                &&& e.wf()
            },
            Err(e) => {
                if time.seconds.mantissa == 0 {
                    e == DivideByZeroError::TimeIsZero
                } else {
                    length.meters.mantissa == 0 && e == DivideByZeroError::LengthIsZero
                }
            },
        },
{
    if time.seconds.mantissa == 0 {
        return Err(DivideByZeroError::TimeIsZero);
    }
    if length.meters.mantissa == 0 {
        return Err(DivideByZeroError::LengthIsZero);
    }
    let lm = length.meters.mantissa as u128;
    let tm = time.seconds.mantissa as u128;
    proof {
        lemma_mul_bound9(lm as int, lm as int);
        lemma_mul_bound9(tm as int, tm as int);
    }
    let num: u128 = (NEUTRON_MASS_MANT as u128) * (lm * lm);
    let den: u128 = 2 * (tm * tm);
    let exp10: i128 = 2 * length.meters.exp10 - 2 * time.seconds.exp10 + NEUTRON_MASS_EXP;
    Ok(EnergyQuantity { num, den, exp10 })
}

} // verus!
