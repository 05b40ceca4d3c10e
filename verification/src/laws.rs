use vstd::prelude::*;
use crate::decimal::Decimal;
use crate::energy::{EnergyQuantity, LengthQuantity, TimeQuantity};
use crate::math::pow10;
use crate::text::{ci_eq, is_space, leading_spaces, lower_code, trailing_spaces, trim_spec};
use crate::units::{
    energy_scale_mant, energy_unit_of, length_scale_exp, length_unit_of, time_scale_exp,
    time_unit_of, EnergyUnit, LengthUnit, TimeUnit,
};

verus! {

/// Unit parsing depends only on the trimmed token up to letter case: two
/// tokens whose trimmed middles fold to the same letters parse alike, in
/// every unit domain. In particular `"CM"`, `" cm "` and `"cm"` all name the
/// same unit.
pub proof fn lemma_unit_parsing_fold_invariant(s1: Seq<char>, s2: Seq<char>)
    requires
        ci_eq(trim_spec(s1), trim_spec(s2)),
    ensures
        length_unit_of(trim_spec(s1)) == length_unit_of(trim_spec(s2)),
        time_unit_of(trim_spec(s1)) == time_unit_of(trim_spec(s2)),
        energy_unit_of(trim_spec(s1)) == energy_unit_of(trim_spec(s2)),
{
    let t1 = trim_spec(s1);
    let t2 = trim_spec(s2);
    assert forall|p: Seq<char>| #[trigger] ci_eq(t1, p) == ci_eq(t2, p) by {
        if ci_eq(t1, p) {
            assert(ci_eq(t2, p));
        }
        if ci_eq(t2, p) {
            assert(ci_eq(t1, p));
        }
    }
}

/// A token with no blanks around it is its own trimmed middle.
proof fn lemma_trim_of_bare(s: Seq<char>)
    requires
        s.len() > 0,
        !is_space(s[0]),
        !is_space(s[s.len() - 1]),
    ensures
        trim_spec(s) == s,
{
    assert(leading_spaces(s) == 0);
    assert(trailing_spaces(s) == 0);
    assert(trim_spec(s) =~= s);
}

/// Each unit's canonical symbol parses to that unit's tag, in every domain;
/// with `lemma_unit_parsing_fold_invariant` this says that every token that
/// folds to a canonical symbol — any casing, any surrounding blanks — names
/// the same unit.
pub proof fn lemma_canonical_symbols_parse()
    ensures
        length_unit_of(trim_spec("cm"@)) == Some(LengthUnit::Centimeter),
        length_unit_of(trim_spec("m"@)) == Some(LengthUnit::Meter),
        length_unit_of(trim_spec("km"@)) == Some(LengthUnit::Kilometer),
        time_unit_of(trim_spec("ns"@)) == Some(TimeUnit::Nanosecond),
        time_unit_of(trim_spec("mus"@)) == Some(TimeUnit::Microsecond),
        time_unit_of(trim_spec("ms"@)) == Some(TimeUnit::Millisecond),
        time_unit_of(trim_spec("s"@)) == Some(TimeUnit::Second),
        energy_unit_of(trim_spec("ev"@)) == Some(EnergyUnit::Electronvolt),
        energy_unit_of(trim_spec("kev"@)) == Some(EnergyUnit::Kiloelectronvolt),
        energy_unit_of(trim_spec("mev"@)) == Some(EnergyUnit::Megaelectronvolt),
        energy_unit_of(trim_spec("gev"@)) == Some(EnergyUnit::Gigaelectronvolt),
        energy_unit_of(trim_spec("j"@)) == Some(EnergyUnit::Joule),
{
    reveal_strlit("cm");
    reveal_strlit("m");
    reveal_strlit("km");
    reveal_strlit("ns");
    reveal_strlit("mus");
    reveal_strlit("ms");
    reveal_strlit("s");
    reveal_strlit("ev");
    reveal_strlit("kev");
    reveal_strlit("mev");
    reveal_strlit("gev");
    reveal_strlit("j");
    lemma_trim_of_bare("cm"@);
    lemma_trim_of_bare("m"@);
    lemma_trim_of_bare("km"@);
    lemma_trim_of_bare("ns"@);
    lemma_trim_of_bare("mus"@);
    lemma_trim_of_bare("ms"@);
    lemma_trim_of_bare("s"@);
    lemma_trim_of_bare("ev"@);
    lemma_trim_of_bare("kev"@);
    lemma_trim_of_bare("mev"@);
    lemma_trim_of_bare("gev"@);
    lemma_trim_of_bare("j"@);
    assert(ci_eq("cm"@, "cm"@));
    assert(ci_eq("m"@, "m"@));
    assert(ci_eq("km"@, "km"@));
    assert(!ci_eq("m"@, "cm"@) && !ci_eq("m"@, "centimeter"@) && !ci_eq("m"@, "centimeters"@)) by {
        reveal_strlit("centimeter");
        reveal_strlit("centimeters");
    }
    assert(!ci_eq("km"@, "cm"@) && !ci_eq("km"@, "centimeter"@) && !ci_eq("km"@, "centimeters"@))
        by {
        reveal_strlit("centimeter");
        reveal_strlit("centimeters");
        assert(lower_code("km"@[0]) != lower_code("cm"@[0]));
    }
    assert(!ci_eq("km"@, "m"@) && !ci_eq("km"@, "meter"@) && !ci_eq("km"@, "meters"@)) by {
        reveal_strlit("meter");
        reveal_strlit("meters");
    }
    assert(ci_eq("ns"@, "ns"@));
    assert(ci_eq("mus"@, "mus"@));
    assert(ci_eq("ms"@, "ms"@));
    assert(ci_eq("s"@, "s"@));
    assert(!ci_eq("mus"@, "ns"@) && !ci_eq("mus"@, "nanosecond"@) && !ci_eq("mus"@, "nanoseconds"@))
        by {
        reveal_strlit("nanosecond");
        reveal_strlit("nanoseconds");
    }
    assert(!ci_eq("ms"@, "ns"@) && !ci_eq("ms"@, "nanosecond"@) && !ci_eq("ms"@, "nanoseconds"@))
        by {
        reveal_strlit("nanosecond");
        reveal_strlit("nanoseconds");
        assert(lower_code("ms"@[0]) != lower_code("ns"@[0]));
    }
    assert(!ci_eq("ms"@, "mus"@) && !ci_eq("ms"@, "us"@) && !ci_eq("ms"@, "microsecond"@)
        && !ci_eq("ms"@, "microseconds"@)) by {
        reveal_strlit("us");
        reveal_strlit("microsecond");
        reveal_strlit("microseconds");
        assert(lower_code("ms"@[0]) != lower_code("us"@[0]));
    }
    assert(!ci_eq("s"@, "ns"@) && !ci_eq("s"@, "nanosecond"@) && !ci_eq("s"@, "nanoseconds"@)) by {
        reveal_strlit("nanosecond");
        reveal_strlit("nanoseconds");
    }
    assert(!ci_eq("s"@, "mus"@) && !ci_eq("s"@, "us"@) && !ci_eq("s"@, "microsecond"@) && !ci_eq(
        "s"@,
        "microseconds"@,
    )) by {
        reveal_strlit("us");
        reveal_strlit("microsecond");
        reveal_strlit("microseconds");
    }
    assert(!ci_eq("s"@, "ms"@) && !ci_eq("s"@, "millisecond"@) && !ci_eq("s"@, "milliseconds"@))
        by {
        reveal_strlit("millisecond");
        reveal_strlit("milliseconds");
    }
    assert(ci_eq("ev"@, "ev"@));
    assert(ci_eq("kev"@, "kev"@));
    assert(ci_eq("mev"@, "mev"@));
    assert(ci_eq("gev"@, "gev"@));
    assert(ci_eq("j"@, "j"@));
    assert(!ci_eq("kev"@, "ev"@) && !ci_eq("kev"@, "electronvolt"@) && !ci_eq(
        "kev"@,
        "electronvolts"@,
    )) by {
        reveal_strlit("electronvolt");
        reveal_strlit("electronvolts");
    }
    assert(!ci_eq("mev"@, "ev"@) && !ci_eq("mev"@, "electronvolt"@) && !ci_eq(
        "mev"@,
        "electronvolts"@,
    )) by {
        reveal_strlit("electronvolt");
        reveal_strlit("electronvolts");
    }
    assert(!ci_eq("mev"@, "kev"@) && !ci_eq("mev"@, "kiloelectronvolt"@) && !ci_eq(
        "mev"@,
        "kiloelectronvolts"@,
    )) by {
        reveal_strlit("kiloelectronvolt");
        reveal_strlit("kiloelectronvolts");
        assert(lower_code("mev"@[0]) != lower_code("kev"@[0]));
    }
    assert(!ci_eq("gev"@, "ev"@) && !ci_eq("gev"@, "electronvolt"@) && !ci_eq(
        "gev"@,
        "electronvolts"@,
    )) by {
        reveal_strlit("electronvolt");
        reveal_strlit("electronvolts");
    }
    assert(!ci_eq("gev"@, "kev"@) && !ci_eq("gev"@, "kiloelectronvolt"@) && !ci_eq(
        "gev"@,
        "kiloelectronvolts"@,
    )) by {
        reveal_strlit("kiloelectronvolt");
        reveal_strlit("kiloelectronvolts");
        assert(lower_code("gev"@[0]) != lower_code("kev"@[0]));
    }
    assert(!ci_eq("gev"@, "mev"@) && !ci_eq("gev"@, "megaelectronvolt"@) && !ci_eq(
        "gev"@,
        "megaelectronvolts"@,
    )) by {
        reveal_strlit("megaelectronvolt");
        reveal_strlit("megaelectronvolts");
        assert(lower_code("gev"@[0]) != lower_code("mev"@[0]));
    }
    assert(!ci_eq("j"@, "ev"@) && !ci_eq("j"@, "electronvolt"@) && !ci_eq("j"@, "electronvolts"@))
        by {
        reveal_strlit("electronvolt");
        reveal_strlit("electronvolts");
    }
    assert(!ci_eq("j"@, "kev"@) && !ci_eq("j"@, "kiloelectronvolt"@) && !ci_eq(
        "j"@,
        "kiloelectronvolts"@,
    )) by {
        reveal_strlit("kiloelectronvolt");
        reveal_strlit("kiloelectronvolts");
    }
    assert(!ci_eq("j"@, "mev"@) && !ci_eq("j"@, "megaelectronvolt"@) && !ci_eq(
        "j"@,
        "megaelectronvolts"@,
    )) by {
        reveal_strlit("megaelectronvolt");
        reveal_strlit("megaelectronvolts");
    }
    assert(!ci_eq("j"@, "gev"@) && !ci_eq("j"@, "gigaelectronvolt"@) && !ci_eq(
        "j"@,
        "gigaelectronvolts"@,
    )) by {
        reveal_strlit("gigaelectronvolt");
        reveal_strlit("gigaelectronvolts");
    }
}

/// Equality of two rational values given in mantissa/denominator/exponent
/// form: n1/d1 × 10^e1 == n2/d2 × 10^e2, cross-multiplied so that only
/// integers appear.
pub open spec fn rat3_eq(n1: int, d1: int, e1: int, n2: int, d2: int, e2: int) -> bool {
    if e1 >= e2 {
        n1 * pow10((e1 - e2) as nat) * d2 == n2 * d1
    } else {
        n1 * d2 == n2 * pow10((e2 - e1) as nat) * d1
    }
}

/// Round trip of the length scale: taking a magnitude to canonical meters
/// multiplies by the unit's exact power of ten, and converting the canonical
/// value back to the same unit restores the original magnitude exactly —
/// not merely within a tolerance, because the scales only move the exponent.
pub proof fn lemma_length_scale_round_trip(d: Decimal, u: LengthUnit)
    requires
        d.wf(),
    ensures
        ({
            let canonical = Decimal {
                negative: d.negative,
                mantissa: d.mantissa,
                exp10: (d.exp10 + length_scale_exp(u)) as i128,
            };
            let back = Decimal {
                negative: canonical.negative,
                mantissa: canonical.mantissa,
                exp10: (canonical.exp10 - length_scale_exp(u)) as i128,
            };
            back == d
        }),
{
}

/// Round trip of the time scale; see `lemma_length_scale_round_trip`.
pub proof fn lemma_time_scale_round_trip(d: Decimal, u: TimeUnit)
    requires
        d.wf(),
    ensures
        ({
            let canonical = Decimal {
                negative: d.negative,
                mantissa: d.mantissa,
                exp10: (d.exp10 + time_scale_exp(u)) as i128,
            };
            let back = Decimal {
                negative: canonical.negative,
                mantissa: canonical.mantissa,
                exp10: (canonical.exp10 - time_scale_exp(u)) as i128,
            };
            back == d
        }),
{
}

/// Round trip of an energy unit scale: converting a joule value to unit `u`
/// divides by the unit's exact scale mantissa (and shifts the exponent), and
/// converting back multiplies by it again; the result is the same rational
/// number of joules.
pub proof fn lemma_energy_scale_round_trip(e: EnergyQuantity, u: EnergyUnit)
    requires
        e.wf(),
    ensures
        rat3_eq(
            (e.num as int) * energy_scale_mant(u),
            (e.den as int) * energy_scale_mant(u),
            e.exp10 as int,
            e.num as int,
            e.den as int,
            e.exp10 as int,
        ),
{
    let s = energy_scale_mant(u);
    assert(((e.num as int) * s) * 1 * (e.den as int) == (e.num as int) * ((e.den as int) * s))
        by (nonlinear_arith);
}

/// What `compute_energy` builds is exactly E = m·L² / (2·T²): with the
/// canonical length L = l_m × 10^l_e meters (signed mantissa l_m) and time
/// T = t_m × 10^t_e seconds, the energy equals
/// 167493·l_m² / (2·t_m²) × 10^(-32 + 2·l_e - 2·t_e) joules, the neutron
/// mass being 167493 × 10⁻³² kg; the squares erase the signs.
pub proof fn lemma_energy_formula(l: LengthQuantity, t: TimeQuantity, e: EnergyQuantity)
    requires
        t.seconds.mantissa != 0,
        e.num == 167_493 * ((l.meters.mantissa as int) * (l.meters.mantissa as int)),
        e.den == 2 * ((t.seconds.mantissa as int) * (t.seconds.mantissa as int)),
        e.exp10 == 2 * l.meters.exp10 - 2 * t.seconds.exp10 - 32,
    ensures
        rat3_eq(
            e.num as int,
            e.den as int,
            e.exp10 as int,
            167_493 * (l.meters.mant_val() * l.meters.mant_val()),
            2 * (t.seconds.mant_val() * t.seconds.mant_val()),
            -32 + 2 * (l.meters.exp10 as int) - 2 * (t.seconds.exp10 as int),
        ),
{
    let lm = l.meters.mantissa as int;
    let tm = t.seconds.mantissa as int;
    assert(l.meters.mant_val() * l.meters.mant_val() == lm * lm) by (nonlinear_arith)
        requires
            l.meters.mant_val() == lm || l.meters.mant_val() == -lm,
    ;
    assert(t.seconds.mant_val() * t.seconds.mant_val() == tm * tm) by (nonlinear_arith)
        requires
            t.seconds.mant_val() == tm || t.seconds.mant_val() == -tm,
    ;
    assert((e.num as int) * 1 * (e.den as int) == (e.num as int) * (e.den as int))
        by (nonlinear_arith);
}

} // verus!
