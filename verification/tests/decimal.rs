use ruuvitag_listener::decimal::Decimal;

#[test]
fn decimal_text_is_the_shortest_plain_form() {
    assert_eq!(Decimal::new(243, 1).to_string(), "24.3");
    assert_eq!(Decimal::new(2430, 2).to_string(), "24.3");
    assert_eq!(Decimal::new(32, 0).to_string(), "32");
    assert_eq!(Decimal::new(3200, 2).to_string(), "32");
    assert_eq!(Decimal::new(0, 0).to_string(), "0");
    assert_eq!(Decimal::new(0, 3).to_string(), "0");
    assert_eq!(Decimal::new(-4, 3).to_string(), "-0.004");
    assert_eq!(Decimal::new(4, 3).to_string(), "0.004");
    assert_eq!(Decimal::new(1036, 3).to_string(), "1.036");
    assert_eq!(Decimal::new(-18, 0).to_string(), "-18");
    assert_eq!(Decimal::new(100044, 3).to_string(), "100.044");
    assert_eq!(Decimal::new(5, 20).to_string(), "0.00000000000000000005");
    assert_eq!(
        Decimal::new(i64::MIN, 0).to_string(),
        "-9223372036854775808"
    );
    assert_eq!(
        Decimal::new(i64::MAX, 19).to_string(),
        "0.9223372036854775807"
    );
}

#[test]
fn decimal_parse_reads_plain_decimals() {
    assert_eq!(Decimal::parse("24.3"), Some(Decimal::new(243, 1)));
    assert_eq!(Decimal::parse("53.49"), Some(Decimal::new(5349, 2)));
    assert_eq!(Decimal::parse("100044"), Some(Decimal::new(100044, 0)));
    assert_eq!(Decimal::parse("-0.004"), Some(Decimal::new(-4, 3)));
    assert_eq!(Decimal::parse("0"), Some(Decimal::new(0, 0)));
    assert_eq!(Decimal::parse("-0"), Some(Decimal::new(0, 0)));
    assert_eq!(
        Decimal::parse("13.026767523401837"),
        Some(Decimal::new(13026767523401837, 15))
    );
    assert_eq!(
        Decimal::parse("9223372036854775807"),
        Some(Decimal::new(i64::MAX, 0))
    );
}

#[test]
fn decimal_parse_refuses_other_text() {
    for text in [
        "", "-", ".", "1.", ".5", "1.2.3", "1e5", "NaN", "inf", "+1", " 1", "1 ", "--1",
        "9223372036854775808", "12a",
    ] {
        assert_eq!(Decimal::parse(text), None, "{text:?}");
    }
}

#[test]
fn decimal_text_parses_back_to_the_same_number() {
    for d in [
        Decimal::new(243, 1),
        Decimal::new(-4, 3),
        Decimal::new(100044, 0),
        Decimal::new(1, 9),
    ] {
        assert_eq!(Decimal::parse(&d.to_string()), Some(d));
    }
}

#[test]
fn times_hundred_drops_places_or_multiplies() {
    assert_eq!(
        Decimal::new(100798, 2).times_hundred(),
        Some(Decimal::new(100798, 0))
    );
    assert_eq!(
        Decimal::new(10079, 1).times_hundred(),
        Some(Decimal::new(100790, 0))
    );
    assert_eq!(
        Decimal::new(1008, 0).times_hundred(),
        Some(Decimal::new(100800, 0))
    );
    assert_eq!(
        Decimal::new(1007981, 3).times_hundred(),
        Some(Decimal::new(1007981, 1))
    );
    assert_eq!(Decimal::new(i64::MAX, 0).times_hundred(), None);
    assert_eq!(Decimal::new(i64::MIN, 1).times_hundred(), None);
}
