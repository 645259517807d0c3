use ttd::date::{
    date_check, day_check, expired_check, get_weekday, greeting_for_hour, parse_date,
    parse_weekday, weekday_check, weekday_from_name, weekday_name, Date, Today,
};
use ttd::error::TtdError;
use ttd::task::OnceDateStatus;

fn some_today() -> Today {
    Today { year: 2023, month: 5, day: 2, weekday: 1 }
}

#[test]
fn test_get_weekday() {
    let time = get_weekday();
    println!("Today is : {}", weekday_name(time));
}

#[test]
fn test_parse_weekday() {
    let weekday = parse_weekday("mon的");
    assert!(weekday.is_err());
}

#[test]
fn test_parse_to_timestamp() {
    let timestamp_1 = parse_date("20230501").unwrap();
    let timestam0_2 = parse_date("20230503").unwrap();
    assert!(
        (timestamp_1.year, timestamp_1.month, timestamp_1.day)
            < (timestam0_2.year, timestam0_2.month, timestam0_2.day)
    );
}

#[test]
fn test_parse_date() {
    let date = parse_date("20230501");
    assert!(date.is_ok());
}

#[test]
fn parse_weekday_accepts_short_and_long_names() {
    assert_eq!(parse_weekday("Mon"), Ok(0));
    assert_eq!(parse_weekday("tue"), Ok(1));
    assert_eq!(parse_weekday("WED"), Ok(2));
    assert_eq!(parse_weekday("thursday"), Ok(3));
    assert_eq!(parse_weekday("friday"), Ok(4));
    assert_eq!(parse_weekday("Saturday"), Ok(5));
    assert_eq!(parse_weekday("sUn"), Ok(6));
}

#[test]
fn parse_weekday_rejects_other_strings() {
    assert_eq!(parse_weekday("thurs"), Err(TtdError::InvalidWeekday));
    assert_eq!(parse_weekday(""), Err(TtdError::InvalidWeekday));
    assert_eq!(parse_weekday("Monday extra"), Err(TtdError::InvalidWeekday));
}

#[test]
fn parse_date_reads_year_month_day() {
    let d = parse_date("20240402").unwrap();
    assert_eq!((d.year, d.month, d.day), (2024, 4, 2));
}

#[test]
fn parse_date_accepts_leap_day_and_rejects_bad_dates() {
    assert!(parse_date("20240229").is_ok());
    assert_eq!(parse_date("20230229"), Err(TtdError::InvalidDate));
    assert_eq!(parse_date("20241301"), Err(TtdError::InvalidDate));
    assert_eq!(parse_date("2024040"), Err(TtdError::InvalidDate));
    assert_eq!(parse_date("not-a-date"), Err(TtdError::InvalidDate));
    assert_eq!(parse_date(""), Err(TtdError::InvalidDate));
}

#[test]
fn date_check_compares_against_today() {
    let today = some_today();
    let same = Date { year: 2023, month: 5, day: 2 };
    let before = Date { year: 2023, month: 4, day: 30 };
    let after = Date { year: 2024, month: 1, day: 1 };
    assert_eq!(date_check(&same, &today), OnceDateStatus::Ongoing);
    assert_eq!(date_check(&before, &today), OnceDateStatus::Expired);
    assert_eq!(date_check(&after, &today), OnceDateStatus::Upcoming);
}

#[test]
fn expired_check_is_strictly_before_today() {
    let today = some_today();
    assert!(expired_check(&Date { year: 2023, month: 5, day: 1 }, &today));
    assert!(!expired_check(&Date { year: 2023, month: 5, day: 2 }, &today));
    assert!(!expired_check(&Date { year: 2023, month: 5, day: 3 }, &today));
}

#[test]
fn weekday_and_day_checks_compare_plain_values() {
    let today = some_today();
    assert!(weekday_check(1, &today));
    assert!(!weekday_check(2, &today));
    assert!(day_check(2, &today));
    assert!(!day_check(3, &today));
}

#[test]
fn weekday_names_round_trip() {
    for w in 0u8..7u8 {
        let name = weekday_name(w);
        assert_eq!(weekday_from_name(&name), Some(w));
    }
    assert_eq!(weekday_name(0), "Mon");
    assert_eq!(weekday_name(6), "Sun");
    assert_eq!(weekday_from_name("monday"), None);
    assert_eq!(weekday_from_name(""), None);
}

#[test]
fn yyyymmdd_strings_round_trip() {
    let d = Date { year: 2024, month: 4, day: 2 };
    let s = d.to_yyyymmdd();
    assert_eq!(s, "20240402");
    assert_eq!(Date::parse_yyyymmdd(&s), Some(d));
    let early = Date { year: 7, month: 12, day: 31 };
    assert_eq!(early.to_yyyymmdd(), "00071231");
    assert_eq!(Date::parse_yyyymmdd("00071231"), Some(early));
    assert_eq!(Date::parse_yyyymmdd("20240002"), None);
    assert_eq!(Date::parse_yyyymmdd("20241301"), None);
    assert_eq!(Date::parse_yyyymmdd("20240432"), None);
    assert_eq!(Date::parse_yyyymmdd("2024040"), None);
    assert_eq!(Date::parse_yyyymmdd("2024040a"), None);
}

#[test]
fn greeting_follows_the_hour() {
    assert_eq!(greeting_for_hour(0), "Good morning!");
    assert_eq!(greeting_for_hour(11), "Good morning!");
    assert_eq!(greeting_for_hour(12), "Good afternoon!");
    assert_eq!(greeting_for_hour(16), "Good afternoon!");
    assert_eq!(greeting_for_hour(17), "Good evening!");
    assert_eq!(greeting_for_hour(23), "Good evening!");
}

#[test]
fn today_lies_in_calendar_ranges() {
    let t = ttd::date::today();
    assert!((1..=12).contains(&t.month));
    assert!((1..=31).contains(&t.day));
    assert!(t.weekday < 7);
}
