use neutron_tof::decimal::Decimal;
use neutron_tof::energy::{build_length, build_time, compute_energy};
use neutron_tof::errors::{DivideByZeroError, TofError};
use neutron_tof::pipeline::energy_line;
use neutron_tof::units::{LengthUnit, TimeUnit};

fn dec(negative: bool, mantissa: u64, exp10: i128) -> Decimal {
    Decimal { negative, mantissa, exp10 }
}

#[test]
fn builders_shift_only_the_exponent() {
    let d = dec(false, 25, -1);
    let l = build_length(d, LengthUnit::Centimeter);
    assert_eq!((l.meters.mantissa, l.meters.exp10), (25, -3));
    let l = build_length(d, LengthUnit::Meter);
    assert_eq!((l.meters.mantissa, l.meters.exp10), (25, -1));
    let l = build_length(d, LengthUnit::Kilometer);
    assert_eq!((l.meters.mantissa, l.meters.exp10), (25, 2));

    let t = build_time(d, TimeUnit::Nanosecond);
    assert_eq!((t.seconds.mantissa, t.seconds.exp10), (25, -10));
    let t = build_time(d, TimeUnit::Microsecond);
    assert_eq!((t.seconds.mantissa, t.seconds.exp10), (25, -7));
    let t = build_time(d, TimeUnit::Millisecond);
    assert_eq!((t.seconds.mantissa, t.seconds.exp10), (25, -4));
    let t = build_time(d, TimeUnit::Second);
    assert_eq!((t.seconds.mantissa, t.seconds.exp10), (25, -1));
}

#[test]
fn scale_round_trip_restores_the_magnitude() {
    // to canonical base and back: the scales are exact powers of ten, so the
    // round trip is exact for every unit
    for unit in [LengthUnit::Centimeter, LengthUnit::Meter, LengthUnit::Kilometer] {
        let one = dec(false, 1, 0);
        let q = build_length(one, unit);
        let back = q.meters.exp10
            - match unit {
                LengthUnit::Centimeter => -2,
                LengthUnit::Meter => 0,
                LengthUnit::Kilometer => 3,
            };
        assert_eq!((q.meters.mantissa, back), (1, 0));
    }
    for unit in [TimeUnit::Nanosecond, TimeUnit::Microsecond, TimeUnit::Millisecond, TimeUnit::Second] {
        let one = dec(false, 1, 0);
        let q = build_time(one, unit);
        let back = q.seconds.exp10
            - match unit {
                TimeUnit::Nanosecond => -9,
                TimeUnit::Microsecond => -6,
                TimeUnit::Millisecond => -3,
                TimeUnit::Second => 0,
            };
        assert_eq!((q.seconds.mantissa, back), (1, 0));
    }
}

#[test]
fn zero_time_is_rejected_before_zero_length() {
    let zero_t = build_time(dec(false, 0, 0), TimeUnit::Second);
    let zero_l = build_length(dec(false, 0, 0), LengthUnit::Meter);
    let one_t = build_time(dec(false, 1, 0), TimeUnit::Second);
    // zero time in any unit fails with the time error, even when the length
    // is zero as well
    assert_eq!(compute_energy(&zero_t, &zero_l).unwrap_err(), DivideByZeroError::TimeIsZero);
    let zero_t_ns = build_time(dec(false, 0, 0), TimeUnit::Nanosecond);
    assert_eq!(compute_energy(&zero_t_ns, &zero_l).unwrap_err(), DivideByZeroError::TimeIsZero);
    // zero length with nonzero time fails with the length error
    assert_eq!(compute_energy(&one_t, &zero_l).unwrap_err(), DivideByZeroError::LengthIsZero);
}

#[test]
fn energy_formula_on_exact_fields() {
    let l = build_length(dec(false, 10, 0), LengthUnit::Meter);
    let t = build_time(dec(false, 1, 0), TimeUnit::Second);
    let e = compute_energy(&t, &l).unwrap();
    assert_eq!(e.num, 167_493 * 100);
    assert_eq!(e.den, 2);
    assert_eq!(e.exp10, -32);
}

#[test]
fn ten_meters_in_one_second_prints_joules() {
    let line = energy_line("10", "m", "1", "s", "J").unwrap();
    assert_eq!(line, "Energy = 8.37465e-26 J");
}

#[test]
fn one_meter_in_72_microseconds_prints_electronvolts() {
    let line = energy_line("1", "m", "72", "us", "eV").unwrap();
    assert!(line.starts_with("Energy = "));
    assert!(line.ends_with(" eV"));
    assert_eq!(line, "Energy = 1.00830351e0 eV");
    let line = energy_line("1", "m", "72", "microseconds", "eV").unwrap();
    assert_eq!(line, "Energy = 1.00830351e0 eV");
}

#[test]
fn more_formatted_scenarios() {
    assert_eq!(energy_line("1", "m", "1", "s", "J").unwrap(), "Energy = 8.37465e-28 J");
    // negative magnitudes are accepted; the squares erase the sign
    assert_eq!(energy_line("-10", "m", "1", "s", "J").unwrap(), "Energy = 8.37465e-26 J");
    assert_eq!(energy_line("2.5", "km", "1.5", "ms", "MeV").unwrap(), "Energy = 1.45195705e-2 MeV");
    assert_eq!(energy_line("100", "cm", "1000000", "ns", "eV").unwrap(), "Energy = 5.22704539e-3 eV");
    assert_eq!(energy_line("1", "km", "1", "ns", "GeV").unwrap(), "Energy = 5.22704539e6 GeV");
    assert_eq!(energy_line("1", "m", "72", "us", "keV").unwrap(), "Energy = 1.00830351e-3 keV");
    assert_eq!(energy_line("0.000123", "km", "72.5", "us", "eV").unwrap(), "Energy = 1.50449407e-2 eV");
}

#[test]
fn pipeline_error_taxonomy_and_order() {
    // unsupported length unit is reported first, even when more is wrong
    match energy_line("abc", "furlong", "0", "parsec", "cal") {
        Err(TofError::UnsupportedUnit(e)) => {
            assert_eq!(e.message(), "Unsupported length unit: furlong")
        },
        _ => panic!("expected an unsupported-unit error"),
    }
    match energy_line("1", "m", "1", "parsec", "cal") {
        Err(TofError::UnsupportedUnit(e)) => {
            assert_eq!(e.message(), "Unsupported time unit: parsec")
        },
        _ => panic!("expected an unsupported-unit error"),
    }
    match energy_line("1", "m", "1", "s", "cal") {
        Err(TofError::UnsupportedUnit(e)) => {
            assert_eq!(e.message(), "Unsupported energy unit: cal")
        },
        _ => panic!("expected an unsupported-unit error"),
    }
    match energy_line("abc", "m", "xyz", "s", "J") {
        Err(TofError::InvalidNumber(e)) => assert_eq!(e.message(), "Invalid number: abc"),
        _ => panic!("expected an invalid-number error"),
    }
    match energy_line("1", "m", "xyz", "s", "J") {
        Err(TofError::InvalidNumber(e)) => assert_eq!(e.message(), "Invalid number: xyz"),
        _ => panic!("expected an invalid-number error"),
    }
    match energy_line("0", "m", "0", "s", "J") {
        Err(TofError::DivideByZero(d)) => {
            assert_eq!(d.message(), "Time is zero, cannot divide by zero")
        },
        _ => panic!("expected a divide-by-zero error"),
    }
    match energy_line("0.000", "m", "1", "s", "J") {
        Err(TofError::DivideByZero(d)) => {
            assert_eq!(d.message(), "Length is zero, cannot divide by zero")
        },
        _ => panic!("expected a divide-by-zero error"),
    }
}
