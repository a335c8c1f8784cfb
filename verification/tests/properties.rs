use chrono::{Datelike, Utc};
use personnummer::{luhn, Date, Personnummer, PersonnummerError, Seperator};

fn fixed_now() -> Date {
    Date { year: 2026, month: 5, day: 10 }
}

#[test]
fn test_century_resolution_is_deterministic() {
    let now = fixed_now();
    let a = Personnummer::parse("000101-0107", now).unwrap();
    let b = Personnummer::parse("000101-0107", now).unwrap();
    assert_eq!(a.year(), b.year());
    assert_eq!(a.year(), 2000);
    assert_eq!(a.month(), b.month());
    assert_eq!(a.day(), b.day());
    assert_eq!(a.serial(), b.serial());
}

#[test]
fn test_century_resolution_boundary() {
    let before = Date { year: 1999, month: 6, day: 1 };
    let after = Date { year: 2000, month: 6, day: 1 };
    assert_eq!(Personnummer::parse("000101-0107", before).unwrap().year(), 1900);
    assert_eq!(Personnummer::parse("000101-0107", after).unwrap().year(), 2000);
}

#[test]
fn test_plus_separator_resolves_a_century_back() {
    let now = fixed_now();
    let plus = Personnummer::parse("000101+2392", now).unwrap();
    assert_eq!(plus.year(), 1900);
    assert!(matches!(plus.seperator(), Seperator::Plus));
    let minus = Personnummer::parse("000101-2392", now).unwrap();
    assert_eq!(minus.year(), 2000);
    assert!(matches!(minus.seperator(), Seperator::Minus));
}

#[test]
fn test_round_trip_long_and_short() {
    let now = fixed_now();
    for input in ["800161-3291", "19900101-0017", "000101+2392", "18680404-0043"] {
        let p = Personnummer::parse(input, now).unwrap();
        let formatted = p.format();

        let from_long = Personnummer::parse(&formatted.long(), now).unwrap();
        assert_eq!(from_long.year(), p.year());
        assert_eq!(from_long.month(), p.month());
        assert_eq!(from_long.day(), p.day());
        assert_eq!(from_long.serial(), p.serial());
        assert_eq!(from_long.is_coordination_number(), p.is_coordination_number());

        let from_short = Personnummer::parse(&formatted.short(), now).unwrap();
        assert_eq!(from_short.year(), p.year());
        assert_eq!(from_short.month(), p.month());
        assert_eq!(from_short.day(), p.day());
        assert_eq!(from_short.serial(), p.serial());
        assert_eq!(from_short.is_coordination_number(), p.is_coordination_number());
    }
}

#[test]
fn test_luhn_is_deterministic_and_single_digit() {
    let a = luhn(String::from("640327381"));
    let b = luhn(String::from("640327381"));
    assert_eq!(a, b);
    assert_eq!(a, 3);
    assert!(a <= 9);
    assert_eq!(luhn(String::from("900101000")), 9);
    assert_eq!(luhn(String::from("000101400")), 0);
}

#[test]
fn test_error_variants() {
    let now = fixed_now();
    assert!(matches!(
        Personnummer::parse("not-a-date", now),
        Err(PersonnummerError::InvalidInput)
    ));
    assert!(matches!(
        Personnummer::parse("19901301-1111", now),
        Err(PersonnummerError::InvalidDate)
    ));
    assert_eq!(
        PersonnummerError::InvalidInput.message(),
        "Invalid format"
    );
    assert_eq!(PersonnummerError::InvalidDate.message(), "Invalid date");
}

#[test]
fn test_coordination_day_decoding() {
    let now = fixed_now();
    let p = Personnummer::parse("800161-3291", now).unwrap();
    assert!(p.is_coordination_number());
    assert_eq!(p.day(), 1);
    assert_eq!(p.month(), 1);
    assert_eq!(p.year(), 1980);

    // day 60 decodes to calendar day zero, days 32..=60 and 92..=99 to none
    for bad in ["000160-1111", "000140-1111", "000192-1111"] {
        assert!(matches!(
            Personnummer::parse(bad, now),
            Err(PersonnummerError::InvalidDate)
        ));
    }
}

#[test]
fn test_leap_year_depends_on_resolved_century() {
    let now = fixed_now();
    // resolved to 2000, a leap year
    assert!(Personnummer::parse("000229-1111", now).is_ok());
    // the plus separator forces 1900, which is no leap year
    assert!(matches!(
        Personnummer::parse("000229+1111", now),
        Err(PersonnummerError::InvalidDate)
    ));
    assert!(Personnummer::parse("20000229-1111", now).is_ok());
    assert!(Personnummer::parse("19000229-1111", now).is_err());
}

#[test]
fn test_missing_control_digit_counts_as_zero() {
    let now = fixed_now();
    // checksum of these nine digits is really zero: valid without a control digit
    assert!(Personnummer::parse("000101400", now).unwrap().valid());
    assert!(Personnummer::parse("000101-400", now).unwrap().valid());
    assert!(Personnummer::parse("0001014000", now).unwrap().valid());
    // checksum seven: the implicit zero does not match
    assert!(!Personnummer::parse("000101-010", now).unwrap().valid());
}

#[test]
fn test_zero_serial_never_valid() {
    let now = fixed_now();
    // the Luhn digit of 900101000 is nine, yet serial 000 stays invalid
    let p = Personnummer::parse("900101-0009", now).unwrap();
    assert!(!p.valid());
}

#[test]
fn test_age_against_injected_date() {
    let p = Personnummer::parse("20000101-0017", fixed_now()).unwrap();
    assert_eq!(p.age(Date { year: 2026, month: 5, day: 10 }), 26);
    assert_eq!(p.age(Date { year: 2026, month: 1, day: 1 }), 26);
    assert_eq!(p.age(Date { year: 2025, month: 12, day: 31 }), 25);
}

#[test]
fn test_seperator_conversions() {
    assert_eq!(Seperator::Minus.as_str(), "-");
    assert_eq!(Seperator::Plus.as_str(), "+");
    assert!(matches!(Seperator::from_str("-"), Ok(Seperator::Minus)));
    assert!(matches!(Seperator::from_str("+"), Ok(Seperator::Plus)));
    assert!(matches!(
        Seperator::from_str("x"),
        Err(PersonnummerError::InvalidInput)
    ));
}

#[test]
fn test_new_agrees_with_parse_at_today() {
    let today = Utc::now();
    let now = Date {
        year: today.year(),
        month: today.month(),
        day: today.day(),
    };
    let a = Personnummer::new("800101-3294").unwrap();
    let b = Personnummer::parse("800101-3294", now).unwrap();
    assert_eq!(a.year(), b.year());
    assert_eq!(a.month(), b.month());
    assert_eq!(a.day(), b.day());
    assert_eq!(a.serial(), b.serial());
}
