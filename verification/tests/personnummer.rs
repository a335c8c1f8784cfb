use std::collections::HashMap;

use chrono::{Datelike, Duration, Utc};
use personnummer::Personnummer;

#[test]
fn test_invalid_date() {
    let cases = vec!["19901301-1111", "2017-02-29", "", "not-a-date"];

    for tc in cases {
        assert!(Personnummer::new(tc).is_err());
    }
}

#[test]
fn test_valid_date_invalid_digits() {
    let cases = vec![
        "19900101-1111",
        "20160229-1111",
        "6403273814",
        "20150916-0006",
    ];

    for tc in cases {
        assert!(!Personnummer::new(tc).unwrap().valid());
    }
}

#[test]
fn test_valid_personal_identity_number() {
    let cases = vec![
        "19900101-0017",
        "196408233234",
        "000101-0107",
        "510818-9167",
        "19130401+2931",
    ];

    for tc in cases {
        assert!(Personnummer::new(tc).unwrap().valid());
    }
}

#[test]
fn test_valid_pn_invalid_seperator() {
    let cases = vec![
        "19900101/0017",
        "19640823_3234",
        "000101 0107",
        "510818S9167",
        "1913040102931",
    ];

    for tc in cases {
        assert!(Personnummer::new(tc).is_err());
    }
}

#[test]
fn test_age() {
    let now = Utc::now();

    let days_in_a_year = 365;
    let leap_years_in_20_years = 20 / 4;
    let twenty_years_ago = (days_in_a_year * 20) + leap_years_in_20_years;

    let leap_years_in_100_years = 100 / 4;
    let hundred_years_ago = (days_in_a_year * 100) + leap_years_in_100_years;

    let twenty_tomorrow_date = (now - Duration::days(twenty_years_ago - 1)).date_naive();
    let twenty_tomorrow = format!(
        "{}{:02}{:02}-1111",
        twenty_tomorrow_date.year(),
        twenty_tomorrow_date.month(),
        twenty_tomorrow_date.day()
    );

    let twenty_yesterday_date = (now - Duration::days(twenty_years_ago + 1)).date_naive();
    let twenty_yesterday = format!(
        "{}{:02}{:02}-1111",
        twenty_yesterday_date.year(),
        twenty_yesterday_date.month(),
        twenty_yesterday_date.day()
    );

    let hundred_years_ago_date = (now - Duration::days(hundred_years_ago)).date_naive();
    let hundred_years_age = format!(
        "{}{:02}{:02}-1111",
        hundred_years_ago_date.year(),
        hundred_years_ago_date.month(),
        hundred_years_ago_date.day()
    );

    let mut cases: HashMap<&str, i32> = HashMap::new();

    cases.insert(twenty_tomorrow.as_str(), 19);
    cases.insert(twenty_yesterday.as_str(), 20);
    cases.insert(hundred_years_age.as_str(), 100);

    for (pnr, age) in cases {
        assert_eq!(Personnummer::new(pnr).unwrap().get_age(), age);
    }
}

#[test]
fn test_gender() {
    let mut cases: HashMap<&str, bool> = HashMap::new();

    cases.insert("19090903-6600", true);
    cases.insert("19900101-0017", false);
    cases.insert("800101-3294", false);
    cases.insert("000903-6609", true);
    cases.insert("800101+3294", false);

    for (pnr, is_female) in cases {
        let p = Personnummer::new(pnr).unwrap();

        assert!(p.valid());
        assert_eq!(p.is_female(), is_female);
        assert_eq!(p.is_male(), !is_female);
    }
}

#[test]
fn test_coordination() {
    let mut cases: HashMap<&str, bool> = HashMap::new();

    cases.insert("800161-3291", true);
    cases.insert("800101-3294", false);
    cases.insert("640327-3813", false);
    cases.insert("250561-0275", true);

    for (pnr, is_coordination) in cases {
        let p = Personnummer::new(pnr).unwrap();
        assert!(p.valid());
        assert_eq!(p.is_coordination_number(), is_coordination);
    }
}

#[test]
fn test_format() {
    let mut cases: HashMap<&str, (&str, &str)> = HashMap::new();

    cases.insert("20000101-2392", ("200001012392", "000101-2392"));
    cases.insert("000101-2392", ("200001012392", "000101-2392"));
    cases.insert("000101+2392", ("190001012392", "000101+2392"));
    // malformed but should be able to be handled
    cases.insert("18680404-0043", ("186804040043", "680404+0043"));
    // coordination number
    cases.insert("950161-2395", ("199501612395", "950161-2395"));

    for (pnr, (long, short)) in cases {
        let p = Personnummer::new(pnr).unwrap();

        assert!(p.valid());
        assert_eq!(p.format().long(), long);
        assert_eq!(p.format().short(), short);
    }
}
