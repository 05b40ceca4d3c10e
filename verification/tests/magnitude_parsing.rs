use neutron_tof::decimal::parse_magnitude;

#[test]
fn plain_integers_parse_exactly() {
    let d = parse_magnitude("10").unwrap();
    assert!(!d.negative);
    assert_eq!(d.mantissa, 10);
    assert_eq!(d.exp10, 0);

    let d = parse_magnitude("007").unwrap();
    assert_eq!(d.mantissa, 7);
    assert_eq!(d.exp10, 0);

    let d = parse_magnitude("0").unwrap();
    assert_eq!(d.mantissa, 0);
}

#[test]
fn signed_and_fractional_forms_parse() {
    let d = parse_magnitude("-3.25").unwrap();
    assert!(d.negative);
    assert_eq!(d.mantissa, 325);
    assert_eq!(d.exp10, -2);

    let d = parse_magnitude("+.5").unwrap();
    assert!(!d.negative);
    assert_eq!(d.mantissa, 5);
    assert_eq!(d.exp10, -1);

    let d = parse_magnitude("1.").unwrap();
    assert_eq!(d.mantissa, 1);
    assert_eq!(d.exp10, 0);

    let d = parse_magnitude("72.5").unwrap();
    assert_eq!(d.mantissa, 725);
    assert_eq!(d.exp10, -1);
}

#[test]
fn long_inputs_keep_nine_significant_digits() {
    let d = parse_magnitude("1234567890123").unwrap();
    assert_eq!(d.mantissa, 123456789);
    assert_eq!(d.exp10, 4);

    let d = parse_magnitude("0.00012345678901").unwrap();
    assert_eq!(d.mantissa, 123456789);
    assert_eq!(d.exp10, -12);
}

#[test]
fn invalid_numbers_are_rejected_with_the_token() {
    for tok in ["abc", "", "+", "-", ".", "1.2.3", "1e5", " 1", "1 ", "--1", "12a"] {
        let e = parse_magnitude(tok).unwrap_err();
        assert_eq!(e.token, tok);
    }
    let e = parse_magnitude("abc").unwrap_err();
    assert_eq!(e.message(), "Invalid number: abc");
}
