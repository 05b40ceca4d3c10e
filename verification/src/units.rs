use vstd::prelude::*;
use crate::errors::UnsupportedUnitError;
use crate::text::{ci_eq, ci_match, trim_bounds, trim_spec};

verus! {

/// The closed set of accepted length units.
#[derive(Clone, Copy, PartialEq, Eq, Structural, Debug)]
pub enum LengthUnit {
    Centimeter,
    Meter,
    Kilometer,
}

/// The closed set of accepted time units.
#[derive(Clone, Copy, PartialEq, Eq, Structural, Debug)]
pub enum TimeUnit {
    Nanosecond,
    Microsecond,
    Millisecond,
    Second,
}

/// The closed set of accepted energy units.
#[derive(Clone, Copy, PartialEq, Eq, Structural, Debug)]
pub enum EnergyUnit {
    Electronvolt,
    Kiloelectronvolt,
    Megaelectronvolt,
    Gigaelectronvolt,
    Joule,
}

/// The length unit whose alias set the (already trimmed) token matches,
/// ignoring ASCII case.
pub open spec fn length_unit_of(t: Seq<char>) -> Option<LengthUnit> {
    if ci_eq(t, "cm"@) || ci_eq(t, "centimeter"@) || ci_eq(t, "centimeters"@) {
        Some(LengthUnit::Centimeter)
    } else if ci_eq(t, "m"@) || ci_eq(t, "meter"@) || ci_eq(t, "meters"@) {
        Some(LengthUnit::Meter)
    } else if ci_eq(t, "km"@) || ci_eq(t, "kilometer"@) || ci_eq(t, "kilometers"@) {
        Some(LengthUnit::Kilometer)
    } else {
        None
    }
}

/// The time unit whose alias set the (already trimmed) token matches,
/// ignoring ASCII case.
pub open spec fn time_unit_of(t: Seq<char>) -> Option<TimeUnit> {
    if ci_eq(t, "ns"@) || ci_eq(t, "nanosecond"@) || ci_eq(t, "nanoseconds"@) {
        Some(TimeUnit::Nanosecond)
    } else if ci_eq(t, "mus"@) || ci_eq(t, "us"@) || ci_eq(t, "microsecond"@) || ci_eq(
        t,
        "microseconds"@,
    ) {
        Some(TimeUnit::Microsecond)
    } else if ci_eq(t, "ms"@) || ci_eq(t, "millisecond"@) || ci_eq(t, "milliseconds"@) {
        Some(TimeUnit::Millisecond)
    } else if ci_eq(t, "s"@) || ci_eq(t, "second"@) || ci_eq(t, "seconds"@) {
        Some(TimeUnit::Second)
    } else {
        None
    }
}

/// The energy unit whose alias set the (already trimmed) token matches,
/// ignoring ASCII case.
pub open spec fn energy_unit_of(t: Seq<char>) -> Option<EnergyUnit> {
    if ci_eq(t, "ev"@) || ci_eq(t, "electronvolt"@) || ci_eq(t, "electronvolts"@) {
        Some(EnergyUnit::Electronvolt)
    } else if ci_eq(t, "kev"@) || ci_eq(t, "kiloelectronvolt"@) || ci_eq(t, "kiloelectronvolts"@) {
        Some(EnergyUnit::Kiloelectronvolt)
    } else if ci_eq(t, "mev"@) || ci_eq(t, "megaelectronvolt"@) || ci_eq(t, "megaelectronvolts"@) {
        Some(EnergyUnit::Megaelectronvolt)
    } else if ci_eq(t, "gev"@) || ci_eq(t, "gigaelectronvolt"@) || ci_eq(t, "gigaelectronvolts"@) {
        Some(EnergyUnit::Gigaelectronvolt)
    } else if ci_eq(t, "j"@) || ci_eq(t, "joule"@) || ci_eq(t, "joules"@) {
        Some(EnergyUnit::Joule)
    } else {
        None
    }
}

/// Map a free-text token to a length unit: trimmed, case-insensitive, exact
/// alias equality only.
pub fn parse_length_unit(token: &str) -> (r: Result<LengthUnit, UnsupportedUnitError>)
    ensures
        match r {
            Ok(u) => length_unit_of(trim_spec(token@)) == Some(u),
            Err(e) => length_unit_of(trim_spec(token@)) is None && (e matches
            UnsupportedUnitError::Length(raw) && raw@ == token@),
        },
{
    let (lo, hi) = trim_bounds(token);
    if ci_match(token, lo, hi, "cm") || ci_match(token, lo, hi, "centimeter") || ci_match(
        token,
        lo,
        hi,
        "centimeters",
    ) {
        Ok(LengthUnit::Centimeter)
    } else if ci_match(token, lo, hi, "m") || ci_match(token, lo, hi, "meter") || ci_match(
        token,
        lo,
        hi,
        "meters",
    ) {
        Ok(LengthUnit::Meter)
    } else if ci_match(token, lo, hi, "km") || ci_match(token, lo, hi, "kilometer") || ci_match(
        token,
        lo,
        hi,
        "kilometers",
    ) {
        Ok(LengthUnit::Kilometer)
    } else {
        Err(UnsupportedUnitError::Length(token.to_owned()))
    }
}

/// Map a free-text token to a time unit: trimmed, case-insensitive, exact
/// alias equality only.
pub fn parse_time_unit(token: &str) -> (r: Result<TimeUnit, UnsupportedUnitError>)
    ensures
        match r {
            Ok(u) => time_unit_of(trim_spec(token@)) == Some(u),
            Err(e) => time_unit_of(trim_spec(token@)) is None && (e matches
            UnsupportedUnitError::Time(raw) && raw@ == token@),
        },
{
    let (lo, hi) = trim_bounds(token);
    if ci_match(token, lo, hi, "ns") || ci_match(token, lo, hi, "nanosecond") || ci_match(
        token,
        lo,
        hi,
        "nanoseconds",
    ) {
        Ok(TimeUnit::Nanosecond)
    } else if ci_match(token, lo, hi, "mus") || ci_match(token, lo, hi, "us") || ci_match(
        token,
        lo,
        hi,
        "microsecond",
    ) || ci_match(token, lo, hi, "microseconds") {
        Ok(TimeUnit::Microsecond)
    } else if ci_match(token, lo, hi, "ms") || ci_match(token, lo, hi, "millisecond") || ci_match(
        token,
        lo,
        hi,
        "milliseconds",
    ) {
        Ok(TimeUnit::Millisecond)
    } else if ci_match(token, lo, hi, "s") || ci_match(token, lo, hi, "second") || ci_match(
        token,
        lo,
        hi,
        "seconds",
    ) {
        Ok(TimeUnit::Second)
    } else {
        Err(UnsupportedUnitError::Time(token.to_owned()))
    }
}

/// Map a free-text token to an energy unit: trimmed, case-insensitive, exact
/// alias equality only.
pub fn parse_energy_unit(token: &str) -> (r: Result<EnergyUnit, UnsupportedUnitError>)
    ensures
        match r {
            Ok(u) => energy_unit_of(trim_spec(token@)) == Some(u),
            Err(e) => energy_unit_of(trim_spec(token@)) is None && (e matches
            UnsupportedUnitError::Energy(raw) && raw@ == token@),
        },
{
    let (lo, hi) = trim_bounds(token);
    if ci_match(token, lo, hi, "ev") || ci_match(token, lo, hi, "electronvolt") || ci_match(
        token,
        lo,
        hi,
        "electronvolts",
    ) {
        Ok(EnergyUnit::Electronvolt)
    } else if ci_match(token, lo, hi, "kev") || ci_match(token, lo, hi, "kiloelectronvolt")
        || ci_match(token, lo, hi, "kiloelectronvolts") {
        Ok(EnergyUnit::Kiloelectronvolt)
    } else if ci_match(token, lo, hi, "mev") || ci_match(token, lo, hi, "megaelectronvolt")
        || ci_match(token, lo, hi, "megaelectronvolts") {
        Ok(EnergyUnit::Megaelectronvolt)
    } else if ci_match(token, lo, hi, "gev") || ci_match(token, lo, hi, "gigaelectronvolt")
        || ci_match(token, lo, hi, "gigaelectronvolts") {
        Ok(EnergyUnit::Gigaelectronvolt)
    } else if ci_match(token, lo, hi, "j") || ci_match(token, lo, hi, "joule") || ci_match(
        token,
        lo,
        hi,
        "joules",
    ) {
        Ok(EnergyUnit::Joule)
    } else {
        Err(UnsupportedUnitError::Energy(token.to_owned()))
    }
}

/// Power of ten that converts a magnitude in this length unit to meters.
pub open spec fn length_scale_exp(u: LengthUnit) -> int {
    match u {
        LengthUnit::Centimeter => -2,
        LengthUnit::Meter => 0,
        LengthUnit::Kilometer => 3,
    }
}

/// Exec counterpart of `length_scale_exp`.
pub fn length_scale_exp_x(u: LengthUnit) -> (r: i128)
    ensures
        r == length_scale_exp(u),
{
    match u {
        LengthUnit::Centimeter => -2,
        LengthUnit::Meter => 0,
        LengthUnit::Kilometer => 3,
    }
}

/// Power of ten that converts a magnitude in this time unit to seconds.
pub open spec fn time_scale_exp(u: TimeUnit) -> int {
    match u {
        TimeUnit::Nanosecond => -9,
        TimeUnit::Microsecond => -6,
        TimeUnit::Millisecond => -3,
        TimeUnit::Second => 0,
    }
}

/// Exec counterpart of `time_scale_exp`.
pub fn time_scale_exp_x(u: TimeUnit) -> (r: i128)
    ensures
        r == time_scale_exp(u),
{
    match u {
        TimeUnit::Nanosecond => -9,
        TimeUnit::Microsecond => -6,
        TimeUnit::Millisecond => -3,
        TimeUnit::Second => 0,
    }
}

/// Mantissa of the joule value of one of this energy unit: one unit equals
/// `energy_scale_mant(u) × 10^energy_scale_exp(u)` joules (one electronvolt
/// is exactly 1.602176634×10⁻¹⁹ J).
pub open spec fn energy_scale_mant(u: EnergyUnit) -> int {
    match u {
        EnergyUnit::Electronvolt => 1_602_176_634,
        EnergyUnit::Kiloelectronvolt => 1_602_176_634,
        EnergyUnit::Megaelectronvolt => 1_602_176_634,
        EnergyUnit::Gigaelectronvolt => 1_602_176_634,
        EnergyUnit::Joule => 1,
    }
}

/// Exponent part of the joule value of one of this energy unit.
pub open spec fn energy_scale_exp(u: EnergyUnit) -> int {
    match u {
        EnergyUnit::Electronvolt => -28,
        EnergyUnit::Kiloelectronvolt => -25,
        EnergyUnit::Megaelectronvolt => -22,
        EnergyUnit::Gigaelectronvolt => -19,
        EnergyUnit::Joule => 0,
    }
}

/// Exec counterpart of the energy scale: mantissa and exponent.
pub fn energy_scale(u: EnergyUnit) -> (r: (u64, i128))
    ensures
        r.0 == energy_scale_mant(u),
        r.1 == energy_scale_exp(u),
{
    match u {
        EnergyUnit::Electronvolt => (1_602_176_634, -28),
        EnergyUnit::Kiloelectronvolt => (1_602_176_634, -25),
        EnergyUnit::Megaelectronvolt => (1_602_176_634, -22),
        EnergyUnit::Gigaelectronvolt => (1_602_176_634, -19),
        EnergyUnit::Joule => (1, 0),
    }
}

/// The standard abbreviation the formatter prints for this energy unit.
pub open spec fn energy_abbrev(u: EnergyUnit) -> Seq<char> {
    match u {
        EnergyUnit::Electronvolt => "eV"@,
        EnergyUnit::Kiloelectronvolt => "keV"@,
        EnergyUnit::Megaelectronvolt => "MeV"@,
        EnergyUnit::Gigaelectronvolt => "GeV"@,
        EnergyUnit::Joule => "J"@,
    }
}

/// Exec counterpart of `energy_abbrev`.
pub fn energy_abbrev_x(u: EnergyUnit) -> (r: &'static str)
    ensures
        r@ == energy_abbrev(u),
{
    match u {
        EnergyUnit::Electronvolt => "eV",
        EnergyUnit::Kiloelectronvolt => "keV",
        EnergyUnit::Megaelectronvolt => "MeV",
        EnergyUnit::Gigaelectronvolt => "GeV",
        EnergyUnit::Joule => "J",
    }
}

} // verus!
