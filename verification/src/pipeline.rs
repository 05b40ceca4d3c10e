use vstd::prelude::*;
use crate::decimal::{is_valid_decimal, magnitude_of, parse_magnitude, Decimal};
use crate::energy::{
    build_length, build_time, compute_energy, EnergyQuantity, LengthQuantity, TimeQuantity,
};
use crate::errors::{DivideByZeroError, TofError, UnsupportedUnitError};
use crate::render::{format_energy, rendered_energy};
use crate::text::trim_spec;
use crate::units::{
    energy_unit_of, length_scale_exp, length_unit_of, parse_energy_unit, parse_length_unit,
    parse_time_unit, time_scale_exp, time_unit_of, EnergyUnit, LengthUnit, TimeUnit,
};

verus! {

/// The canonical length the pipeline computes for a valid magnitude token.
pub open spec fn spec_length(mag_tok: Seq<char>, unit: LengthUnit) -> LengthQuantity {
    let d = magnitude_of(mag_tok);
    LengthQuantity {
        meters: Decimal {
            negative: d.negative,
            mantissa: d.mantissa,
            exp10: (d.exp10 + length_scale_exp(unit)) as i128,
        },
    }
}

/// The canonical time the pipeline computes for a valid magnitude token.
pub open spec fn spec_time(mag_tok: Seq<char>, unit: TimeUnit) -> TimeQuantity {
    let d = magnitude_of(mag_tok);
    TimeQuantity {
        seconds: Decimal {
            negative: d.negative,
            mantissa: d.mantissa,
            exp10: (d.exp10 + time_scale_exp(unit)) as i128,
        },
    }
}

/// The exact joule value the energy formula produces from canonical
/// quantities with nonzero mantissas.
pub open spec fn spec_energy(l: LengthQuantity, t: TimeQuantity) -> EnergyQuantity {
    EnergyQuantity {
        num: (167_493 * ((l.meters.mantissa as int) * (l.meters.mantissa as int))) as u128,
        den: (2 * ((t.seconds.mantissa as int) * (t.seconds.mantissa as int))) as u128,
        exp10: (2 * l.meters.exp10 - 2 * t.seconds.exp10 - 32) as i128,
    }
}

/// The whole pipeline on raw tokens: parse the three unit tokens, parse the
/// two magnitudes, normalize, apply the energy formula, and render the
/// `Energy = <value> <abbrev>` line. Errors are detected in that order and
/// end the run at once.
pub fn energy_line(
    length_value: &str,
    length_unit: &str,
    time_value: &str,
    time_unit: &str,
    energy_unit: &str,
) -> (r: Result<String, TofError>)
    ensures
        ({
            let lu = length_unit_of(trim_spec(length_unit@));
            let tu = time_unit_of(trim_spec(time_unit@));
            let eu = energy_unit_of(trim_spec(energy_unit@));
            match r {
                Ok(line) => {
                    &&& lu is Some
                    &&& tu is Some
                    &&& eu is Some
                    &&& is_valid_decimal(length_value@)
                    &&& is_valid_decimal(time_value@)
                    &&& magnitude_of(time_value@).mantissa != 0
                    &&& magnitude_of(length_value@).mantissa != 0
                    &&& rendered_energy(
                        spec_energy(
                            spec_length(length_value@, lu.unwrap()),
                            spec_time(time_value@, tu.unwrap()),
                        ),
                        eu.unwrap(),
                        line@,
                    )
                },
                Err(TofError::UnsupportedUnit(UnsupportedUnitError::Length(t))) => lu is None
                    && t@ == length_unit@,
                Err(TofError::UnsupportedUnit(UnsupportedUnitError::Time(t))) => lu is Some
                    && tu is None && t@ == time_unit@,
                Err(TofError::UnsupportedUnit(UnsupportedUnitError::Energy(t))) => lu is Some
                    && tu is Some && eu is None && t@ == energy_unit@,
                Err(TofError::InvalidNumber(e)) => {
                    &&& lu is Some
                    &&& tu is Some
                    &&& eu is Some
                    &&& if !is_valid_decimal(length_value@) {
                        e.token@ == length_value@
                    } else {
                        !is_valid_decimal(time_value@) && e.token@ == time_value@
                    }
                },
                Err(TofError::DivideByZero(d)) => {
                    &&& lu is Some
                    &&& tu is Some
                    &&& eu is Some
                    &&& is_valid_decimal(length_value@)
                    &&& is_valid_decimal(time_value@)
                    &&& if magnitude_of(time_value@).mantissa == 0 {
                        d == DivideByZeroError::TimeIsZero
                    } else {
                        magnitude_of(length_value@).mantissa == 0 && d
                            == DivideByZeroError::LengthIsZero
                    }
                },
            }
        }),
{
    let lu = match parse_length_unit(length_unit) {
        Ok(u) => u,
        Err(e) => {
            return Err(TofError::UnsupportedUnit(e));
        },
    };
    let tu = match parse_time_unit(time_unit) {
        Ok(u) => u,
        Err(e) => {
            return Err(TofError::UnsupportedUnit(e));
        },
    };
    let eu = match parse_energy_unit(energy_unit) {
        Ok(u) => u,
        Err(e) => {
            return Err(TofError::UnsupportedUnit(e));
        },
    };
    let lmag = match parse_magnitude(length_value) {
        Ok(d) => d,
        Err(e) => {
            return Err(TofError::InvalidNumber(e));
        },
    };
    let tmag = match parse_magnitude(time_value) {
        Ok(d) => d,
        Err(e) => {
            return Err(TofError::InvalidNumber(e));
        },
    };
    let lq = build_length(lmag, lu);
    let tq = build_time(tmag, tu);
    let energy = match compute_energy(&tq, &lq) {
        Ok(e) => e,
        Err(d) => {
            return Err(TofError::DivideByZero(d));
        },
    };
    proof {
        assert(lq == spec_length(length_value@, lu));
        assert(tq == spec_time(time_value@, tu));
        assert(energy == spec_energy(lq, tq));
    }
    Ok(format_energy(&energy, eu))
}

} // verus!
