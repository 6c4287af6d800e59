use chrono::NaiveDate;
use pond_cache::calendar::civil_timestamp;
use pond_cache::Timestamp;

#[test]
fn test_civil_timestamp_on_given_days() {
    assert_eq!(
        civil_timestamp(1970, 1, 1, 0, 0, 0, 0),
        Some(Timestamp::new(0, 0))
    );
    assert_eq!(
        civil_timestamp(1969, 12, 31, 23, 59, 59, 999_999_999),
        Some(Timestamp::new(-1, 999_999_999))
    );
    assert_eq!(
        civil_timestamp(0, 1, 1, 0, 0, 0, 0),
        Some(Timestamp::new(-62_167_219_200, 0))
    );
    assert_eq!(
        civil_timestamp(9999, 12, 31, 23, 59, 59, 0),
        Some(Timestamp::new(253_402_300_799, 0))
    );
    assert_eq!(
        civil_timestamp(2015, 5, 15, 0, 0, 0, 0),
        Some(Timestamp::new(1_431_648_000, 0))
    );
    assert_eq!(
        civil_timestamp(2023, 11, 14, 22, 13, 20, 7),
        Some(Timestamp::new(1_700_000_000, 7))
    );
    assert_eq!(
        civil_timestamp(2000, 2, 29, 0, 0, 0, 0),
        Some(Timestamp::new(951_782_400, 0))
    );
    assert_eq!(
        civil_timestamp(2000, 3, 1, 0, 0, 0, 0),
        Some(Timestamp::new(951_868_800, 0))
    );
}

#[test]
fn test_civil_timestamp_of_a_leap_second() {
    assert_eq!(
        civil_timestamp(2016, 12, 31, 23, 59, 60, 500_000_000),
        Some(Timestamp::new(1_483_228_799, 1_500_000_000))
    );
    assert_eq!(
        civil_timestamp(2016, 12, 31, 23, 59, 59, 999_999_999),
        Some(Timestamp::new(1_483_228_799, 999_999_999))
    );
    assert_eq!(
        civil_timestamp(2017, 1, 1, 0, 0, 0, 0),
        Some(Timestamp::new(1_483_228_800, 0))
    );
}

#[test]
fn test_civil_timestamp_refuses_what_is_no_day_or_time() {
    assert_eq!(civil_timestamp(10_000, 1, 1, 0, 0, 0, 0), None);
    assert_eq!(civil_timestamp(2023, 0, 1, 0, 0, 0, 0), None);
    assert_eq!(civil_timestamp(2023, 13, 1, 0, 0, 0, 0), None);
    assert_eq!(civil_timestamp(2023, 1, 0, 0, 0, 0, 0), None);
    assert_eq!(civil_timestamp(2023, 1, 32, 0, 0, 0, 0), None);
    assert_eq!(civil_timestamp(2023, 2, 29, 0, 0, 0, 0), None);
    assert_eq!(civil_timestamp(1900, 2, 29, 0, 0, 0, 0), None);
    assert_eq!(civil_timestamp(2100, 2, 29, 0, 0, 0, 0), None);
    assert_eq!(civil_timestamp(2023, 4, 31, 0, 0, 0, 0), None);
    assert_eq!(civil_timestamp(2023, 6, 31, 0, 0, 0, 0), None);
    assert_eq!(civil_timestamp(2023, 9, 31, 0, 0, 0, 0), None);
    assert_eq!(civil_timestamp(2023, 11, 31, 0, 0, 0, 0), None);
    assert_eq!(civil_timestamp(2023, 1, 1, 24, 0, 0, 0), None);
    assert_eq!(civil_timestamp(2023, 1, 1, 0, 60, 0, 0), None);
    assert_eq!(civil_timestamp(2023, 1, 1, 0, 0, 61, 0), None);
    assert_eq!(civil_timestamp(2023, 1, 1, 0, 0, 0, 1_000_000_000), None);
    assert!(civil_timestamp(2024, 2, 29, 0, 0, 0, 0).is_some());
    assert!(civil_timestamp(2000, 2, 29, 0, 0, 0, 0).is_some());
    assert!(civil_timestamp(1600, 2, 29, 0, 0, 0, 0).is_some());
    assert!(civil_timestamp(0, 2, 29, 0, 0, 0, 0).is_some());
}

#[test]
fn test_civil_timestamp_counts_days_as_chrono_does() {
    let mut year = 0u32;
    while year <= 9999 {
        for (month, day) in [(1u32, 1u32), (2, 28), (3, 1), (6, 30), (12, 31)] {
            let seconds = NaiveDate::from_ymd_opt(year as i32, month, day)
                .unwrap()
                .and_hms_opt(12, 34, 56)
                .unwrap()
                .and_utc()
                .timestamp();
            assert_eq!(
                civil_timestamp(year, month, day, 12, 34, 56, 0),
                Some(Timestamp::new(seconds, 0))
            );
        }
        year += if year % 400 < 5 || year > 9990 { 1 } else { 37 };
    }
}
