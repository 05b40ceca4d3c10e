use neutron_tof::errors::UnsupportedUnitError;
use neutron_tof::units::{
    parse_energy_unit, parse_length_unit, parse_time_unit, EnergyUnit, LengthUnit, TimeUnit,
};

#[test]
fn length_aliases_fold_to_canonical_tag() {
    for tok in ["cm", "CM", " cm ", "centimeter", "Centimeters", "\tCM\n"] {
        assert_eq!(parse_length_unit(tok).unwrap(), LengthUnit::Centimeter);
    }
    for tok in ["m", "M", "meter", "METERS", " m"] {
        assert_eq!(parse_length_unit(tok).unwrap(), LengthUnit::Meter);
    }
    for tok in ["km", "Km", "kilometer", "KILOMETERS", " kM "] {
        assert_eq!(parse_length_unit(tok).unwrap(), LengthUnit::Kilometer);
    }
}

#[test]
fn time_aliases_fold_to_canonical_tag() {
    for tok in ["ns", "NS", "nanosecond", "Nanoseconds"] {
        assert_eq!(parse_time_unit(tok).unwrap(), TimeUnit::Nanosecond);
    }
    for tok in ["mus", "us", "US", "microsecond", "MICROSECONDS", " Mus "] {
        assert_eq!(parse_time_unit(tok).unwrap(), TimeUnit::Microsecond);
    }
    for tok in ["ms", "MS", "millisecond", "Milliseconds"] {
        assert_eq!(parse_time_unit(tok).unwrap(), TimeUnit::Millisecond);
    }
    for tok in ["s", "S", "second", "SECONDS", " s "] {
        assert_eq!(parse_time_unit(tok).unwrap(), TimeUnit::Second);
    }
}

#[test]
fn energy_aliases_fold_to_canonical_tag() {
    for tok in ["ev", "eV", "EV", "electronvolt", "Electronvolts"] {
        assert_eq!(parse_energy_unit(tok).unwrap(), EnergyUnit::Electronvolt);
    }
    for tok in ["kev", "keV", "kiloelectronvolts", "KILOELECTRONVOLT"] {
        assert_eq!(parse_energy_unit(tok).unwrap(), EnergyUnit::Kiloelectronvolt);
    }
    for tok in ["mev", "MeV", "megaelectronvolt", "MEGAELECTRONVOLTS"] {
        assert_eq!(parse_energy_unit(tok).unwrap(), EnergyUnit::Megaelectronvolt);
    }
    for tok in ["gev", "GeV", "gigaelectronvolts", "GIGAELECTRONVOLT"] {
        assert_eq!(parse_energy_unit(tok).unwrap(), EnergyUnit::Gigaelectronvolt);
    }
    for tok in ["j", "J", "joule", "Joules", " J "] {
        assert_eq!(parse_energy_unit(tok).unwrap(), EnergyUnit::Joule);
    }
}

#[test]
fn unsupported_length_unit_names_domain_and_token() {
    match parse_length_unit("furlong") {
        Err(UnsupportedUnitError::Length(t)) => assert_eq!(t, "furlong"),
        _ => panic!("expected a length-domain error"),
    }
    let e = parse_length_unit("furlong").unwrap_err();
    assert_eq!(e.message(), "Unsupported length unit: furlong");
}

#[test]
fn unsupported_time_unit_names_domain_and_token() {
    match parse_time_unit("fortnight") {
        Err(UnsupportedUnitError::Time(t)) => assert_eq!(t, "fortnight"),
        _ => panic!("expected a time-domain error"),
    }
    let e = parse_time_unit("fortnight").unwrap_err();
    assert_eq!(e.message(), "Unsupported time unit: fortnight");
}

#[test]
fn unsupported_energy_unit_names_domain_and_token() {
    match parse_energy_unit("calorie") {
        Err(UnsupportedUnitError::Energy(t)) => assert_eq!(t, "calorie"),
        _ => panic!("expected an energy-domain error"),
    }
    let e = parse_energy_unit("calorie").unwrap_err();
    assert_eq!(e.message(), "Unsupported energy unit: calorie");
}

#[test]
fn every_whitespace_kind_is_trimmed() {
    // the same set str::trim strips: vertical tab, form feed, next line,
    // no-break space, en quad, narrow no-break space, ideographic space, ...
    assert_eq!(parse_length_unit("cm\u{000C}").unwrap(), LengthUnit::Centimeter);
    assert_eq!(parse_length_unit("\u{000B}m").unwrap(), LengthUnit::Meter);
    assert_eq!(parse_length_unit("\u{00A0}cm\u{3000}").unwrap(), LengthUnit::Centimeter);
    assert_eq!(parse_length_unit("\u{2000}km\u{0085}").unwrap(), LengthUnit::Kilometer);
    assert_eq!(parse_time_unit("s\u{000C}").unwrap(), TimeUnit::Second);
    assert_eq!(parse_time_unit("\u{202F}us\u{205F}").unwrap(), TimeUnit::Microsecond);
    assert_eq!(parse_energy_unit("ev\u{000B}").unwrap(), EnergyUnit::Electronvolt);
    assert_eq!(parse_energy_unit("\u{1680}J\u{2028}").unwrap(), EnergyUnit::Joule);
}

#[test]
fn kelvin_sign_folds_to_k() {
    // U+212A KELVIN SIGN lowercases to a plain k
    assert_eq!(parse_length_unit("\u{212A}m").unwrap(), LengthUnit::Kilometer);
    assert_eq!(parse_length_unit("\u{212A}ilometers").unwrap(), LengthUnit::Kilometer);
    assert_eq!(parse_energy_unit("\u{212A}eV").unwrap(), EnergyUnit::Kiloelectronvolt);
}

#[test]
fn no_partial_or_fuzzy_matching() {
    assert!(parse_length_unit("me").is_err());
    assert!(parse_length_unit("meterss").is_err());
    assert!(parse_length_unit("").is_err());
    assert!(parse_length_unit("c m").is_err());
    assert!(parse_time_unit("sec").is_err());
    assert!(parse_energy_unit("e V").is_err());
}
