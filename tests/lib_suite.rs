use chrono::{TimeZone, Utc};
use tori_scrape::dateparser::{parse_day, parse_hh_mm, parse_month_short, TimeOfDay};
use tori_scrape::{price_parse, reformat_ws, remove_prefix_maybe, DateParseError, Parser, Price};

fn get_time() -> i64 {
    chrono_tz::Europe::Helsinki
        .with_ymd_and_hms(2023, 3, 25, 10, 52, 1)
        .unwrap()
        .timestamp()
}

fn helsinki(y: i32, mo: u32, d: u32, h: u32, mi: u32) -> i64 {
    chrono_tz::Europe::Helsinki
        .with_ymd_and_hms(y, mo, d, h, mi, 0)
        .unwrap()
        .with_timezone(&Utc)
        .timestamp()
}

#[test]
fn parse_price() {
    assert_eq!(
        price_parse("1 €"),
        Ok(Price {
            value: 1,
            unit: "€".to_string(),
        })
    );
    assert_eq!(
        price_parse(" 1 599  €"),
        Ok(Price {
            value: 1599,
            unit: "€".to_string(),
        })
    );
}

#[test]
fn lib_test_parse_month_short() {
    assert_eq!(parse_month_short("tam"), Ok(1));
    assert_eq!(
        parse_month_short("foo"),
        Err(DateParseError::InvalidMonth("foo".to_string()))
    );
}

#[test]
fn lib_test_parse_hh_mm() {
    assert_eq!(parse_hh_mm("01:23"), Ok(TimeOfDay { hour: 1, minute: 23 }));
    assert_eq!(
        parse_hh_mm("01:60"),
        Err(DateParseError::InvalidTime("01:60".to_string()))
    );
    assert_eq!(
        parse_hh_mm("25:24"),
        Err(DateParseError::InvalidTime("25:24".to_string()))
    );
}

#[test]
fn lib_test_parse_ts_relative() {
    let parser = Parser::new(get_time(), "Europe/Helsinki").unwrap();

    let result = parser.parse_posted_at("tänään 01:23");

    assert_eq!(result, Ok(helsinki(2023, 3, 25, 1, 23)));

    let result = parser.parse_posted_at("eilen 15:59");
    assert_eq!(result, Ok(helsinki(2023, 3, 24, 15, 59)));

    let result = parser.parse_posted_at("tänään 25:48");
    assert_eq!(
        result,
        Err(DateParseError::InvalidTime("25:48".to_string()))
    );
}

#[test]
fn lib_test_parse_ts_absolute() {
    let parser = Parser::new(get_time(), "Europe/Helsinki").unwrap();
    let result = parser.parse_posted_at("21 huh 19:52");
    assert_eq!(result, Ok(helsinki(2022, 4, 21, 19, 52)));
    let result = parser.parse_posted_at("32 tam 01:32");
    assert_eq!(result, Err(DateParseError::InvalidDay("32".to_string())));
}

#[test]
fn lib_test_parse_day() {
    assert!(parse_day("0").is_err());
    assert!(parse_day("32").is_err());
    assert!(parse_day("1").unwrap() == 1);
    assert!(parse_day("31").unwrap() == 31);
}

#[test]
fn test_remove_prefix() {
    assert_eq!(remove_prefix_maybe("testi_", "testi_data"), "data");
    assert_eq!(remove_prefix_maybe("notexist_", "testi_data"), "testi_data");
}

#[test]
fn test_reformat_ws() {
    let s = "\t\t\t\t\tfoo\t\t\tbar\t\t".to_string();
    let y = reformat_ws(&s);
    assert_eq!("foo bar".to_string(), y);
}
