use arbitrage::{Backoff, Date, Decimal};

fn dec(s: &str) -> Decimal {
    Decimal::parse(s).unwrap()
}

#[test]
fn decimal_parse_exact_values() {
    assert_eq!(dec("0").units, 0);
    assert_eq!(dec("1").units, 1_000_000_000);
    assert_eq!(dec("0.015").units, 15_000_000);
    assert_eq!(dec("84000.00000000").units, 84_000 * 1_000_000_000i128);
    assert_eq!(dec("-2.5").units, -2_500_000_000);
    assert_eq!(dec("007").units, 7_000_000_000);
}

#[test]
fn decimal_trailing_zeros_do_not_matter() {
    assert_eq!(dec("1.0"), dec("1.000000"));
    assert_eq!(dec("84000.00000000"), dec("84000"));
}

#[test]
fn decimal_rejects_malformed_tokens() {
    assert!(Decimal::parse("").is_none());
    assert!(Decimal::parse("-").is_none());
    assert!(Decimal::parse("1.").is_none());
    assert!(Decimal::parse(".5").is_none());
    assert!(Decimal::parse("1..2").is_none());
    assert!(Decimal::parse("1e5").is_none());
    assert!(Decimal::parse("12a").is_none());
    // more than nine fractional digits
    assert!(Decimal::parse("1.0000000001").is_none());
}

#[test]
fn decimal_format_is_canonical_and_round_trips() {
    assert_eq!(dec("0.015").to_string(), "0.015");
    assert_eq!(dec("84000.00000000").to_string(), "84000");
    assert_eq!(dec("-2.500").to_string(), "-2.5");
    assert_eq!(dec("0").to_string(), "0");
    for s in ["0.000000001", "123456789.987654321", "-1", "99000"] {
        let d = dec(s);
        assert_eq!(Decimal::parse(&d.to_string()).unwrap(), d);
    }
}

#[test]
fn decimal_comparisons_are_exact() {
    assert!(dec("0.1").lt(&dec("0.2")));
    assert!(!dec("0.2").lt(&dec("0.2")));
    assert_eq!(dec("3").min(&dec("2")), dec("2"));
    assert!(dec("0").is_zero());
    assert!(!dec("0.000000001").is_zero());
}

#[test]
fn date_parse_yymmdd() {
    assert_eq!(Date::parse_yymmdd("250221").unwrap(), Date { year: 2025, month: 2, day: 21 });
    assert_eq!(Date::parse_yymmdd("690101").unwrap(), Date { year: 1969, month: 1, day: 1 });
    assert!(Date::parse_yymmdd("250230").is_none());
    assert!(Date::parse_yymmdd("251321").is_none());
    assert!(Date::parse_yymmdd("2502211").is_none());
    // leap day
    assert_eq!(Date::parse_yymmdd("240229").unwrap(), Date { year: 2024, month: 2, day: 29 });
    assert!(Date::parse_yymmdd("230229").is_none());
}

#[test]
fn date_parse_ddmmmyy() {
    assert_eq!(Date::parse_ddmmmyy("21FEB25").unwrap(), Date { year: 2025, month: 2, day: 21 });
    assert_eq!(Date::parse_ddmmmyy("10MAY24").unwrap(), Date { year: 2024, month: 5, day: 10 });
    assert_eq!(Date::parse_ddmmmyy("1JUN24").unwrap(), Date { year: 2024, month: 6, day: 1 });
    assert!(Date::parse_ddmmmyy("31FEB25").is_none());
    assert!(Date::parse_ddmmmyy("21ABC25").is_none());
}

#[test]
fn date_formats_round_trip() {
    let d = Date { year: 2025, month: 2, day: 21 };
    assert_eq!(d.format_yymmdd(), "250221");
    assert_eq!(d.format_ddmmmyy(), "21FEB25");
    assert_eq!(d.format_iso(), "2025-02-21");
    assert_eq!(Date::parse_yymmdd(&d.format_yymmdd()).unwrap(), d);
    assert_eq!(Date::parse_ddmmmyy(&d.format_ddmmmyy()).unwrap(), d);
}

#[test]
fn backoff_is_exponential_and_capped() {
    let mut b = Backoff::new(8, 32);
    let mut delays = Vec::new();
    while let Some(d) = b.next() {
        delays.push(d);
    }
    assert_eq!(delays, vec![0, 1, 2, 4, 8, 16, 32, 32]);
    assert_eq!(b.get_iteration_count(), 8);
    assert!(b.next().is_none());
    b.reset();
    assert_eq!(b.next(), Some(0));
    assert_eq!(b.next(), Some(1));
}
