use chrono::{Datelike, TimeZone, Utc};
use tori_scrape::dateparser::{
    parse_day, parse_hh_mm, parse_month_short, tokenize, DateParser, ParseError, Stamp,
    TimeOfDay,
};
use tori_scrape::utils::{strip_prefix, trim_ws};
use tori_scrape::zone::{previous_day, LocalDate};
use tori_scrape::{
    price_parse, reformat_ws, remove_prefix_maybe, Item, ItemAttribute, ItemParseError,
    ItemParseErrorKind, Listing, Parser, Price,
};

const ZONE: &str = "Europe/Helsinki";

fn anchor() -> i64 {
    Utc.with_ymd_and_hms(2023, 3, 25, 10, 52, 1).unwrap().timestamp()
}

fn helsinki(y: i32, mo: u32, d: u32, h: u32, mi: u32) -> i64 {
    chrono_tz::Europe::Helsinki
        .with_ymd_and_hms(y, mo, d, h, mi, 0)
        .unwrap()
        .timestamp()
}

fn euro(value: i32) -> Price {
    Price {
        value,
        unit: "€".to_string(),
    }
}

#[test]
fn hh_mm_round_trip_over_all_two_digit_values() {
    for h in 0..100u32 {
        for m in 0..100u32 {
            let s = format!("{:02}:{:02}", h, m);
            let r = parse_hh_mm(&s);
            if h < 24 && m < 60 {
                assert_eq!(r, Ok(TimeOfDay { hour: h, minute: m }));
            } else {
                assert_eq!(r, Err(ParseError::InvalidTime(s.clone())));
            }
        }
    }
}

#[test]
fn hh_mm_other_shapes_as_chrono_reads_them() {
    assert_eq!(parse_hh_mm("1:23"), Ok(TimeOfDay { hour: 1, minute: 23 }));
    assert_eq!(parse_hh_mm(" 01:23"), Ok(TimeOfDay { hour: 1, minute: 23 }));
    for s in ["0123", "01-23", "", "01:23 ", "ab:cd", "24:00", "23:60"] {
        assert_eq!(parse_hh_mm(s), Err(ParseError::InvalidTime(s.to_string())));
    }
}

#[test]
fn all_twelve_month_names() {
    let names = [
        "tam", "hel", "maa", "huh", "tou", "kes", "hei", "elo", "syy", "lok", "mar", "jou",
    ];
    for (i, name) in names.iter().enumerate() {
        assert_eq!(parse_month_short(name), Ok(i as u32 + 1));
    }
    for other in ["TAM", "Tam", "ta", "tamm", "", "jan", "xyz"] {
        assert_eq!(
            parse_month_short(other),
            Err(ParseError::InvalidMonth(other.to_string()))
        );
    }
}

#[test]
fn day_tokens() {
    assert_eq!(parse_day("7"), Ok(7));
    assert_eq!(parse_day("07"), Ok(7));
    assert_eq!(parse_day("+5"), Ok(5));
    for bad in ["0", "32", "00", "", "+", "-1", "x", "99999999999999999999", " 5"] {
        assert_eq!(parse_day(bad), Err(ParseError::InvalidDay(bad.to_string())));
    }
}

#[test]
fn day_outside_range_fails_resolution() {
    let p = DateParser::new(anchor(), ZONE).unwrap();
    for day in ["0", "00", "32", "99"] {
        let raw = format!("{} tam 01:00", day);
        assert_eq!(p.parse(&raw), Err(ParseError::InvalidDay(day.to_string())));
    }
}

#[test]
fn absolute_stamp_rolls_back_a_year() {
    let p = DateParser::new(anchor(), ZONE).unwrap();
    let t = p.parse("21 huh 19:52").unwrap();
    let d = chrono::DateTime::from_timestamp(t, 0).unwrap();
    assert_eq!(d.year(), 2022);
    assert_eq!(t, helsinki(2022, 4, 21, 19, 52));
}

#[test]
fn absolute_stamp_before_anchor_keeps_year() {
    let p = DateParser::new(anchor(), ZONE).unwrap();
    assert_eq!(p.parse("21 maa 19:52"), Ok(helsinki(2023, 3, 21, 19, 52)));
    assert_eq!(p.parse("25 maa 10:52"), Ok(helsinki(2023, 3, 25, 10, 52)));
    assert_eq!(p.parse("25 maa 12:52"), Ok(helsinki(2023, 3, 25, 12, 52)));
    assert_eq!(p.parse("25 maa 13:00"), Ok(helsinki(2022, 3, 25, 13, 0)));
}

#[test]
fn relative_stamps_in_utc() {
    let p = DateParser::new(anchor(), ZONE).unwrap();
    // Helsinki is two hours ahead of UTC before the clocks change on 26 March.
    assert_eq!(
        p.parse("tänään 01:23"),
        Ok(Utc.with_ymd_and_hms(2023, 3, 24, 23, 23, 0).unwrap().timestamp())
    );
    assert_eq!(
        p.parse("eilen 15:59"),
        Ok(Utc.with_ymd_and_hms(2023, 3, 24, 13, 59, 0).unwrap().timestamp())
    );
}

#[test]
fn local_date_decides_today_near_midnight() {
    // 22:30 UTC on 31 December is already 1 January in Helsinki.
    let t = Utc.with_ymd_and_hms(2023, 12, 31, 22, 30, 0).unwrap().timestamp();
    let p = DateParser::new(t, ZONE).unwrap();
    assert_eq!(p.parse("tänään 00:10"), Ok(helsinki(2024, 1, 1, 0, 10)));
    assert_eq!(p.parse("eilen 00:10"), Ok(helsinki(2023, 12, 31, 0, 10)));
}

#[test]
fn yesterday_across_a_leap_day() {
    let t = helsinki(2024, 3, 1, 12, 0);
    let p = DateParser::new(t, ZONE).unwrap();
    assert_eq!(p.parse("eilen 08:00"), Ok(helsinki(2024, 2, 29, 8, 0)));
}

#[test]
fn previous_day_values() {
    let d = |year, month, day| LocalDate { year, month, day };
    assert_eq!(previous_day(d(2023, 3, 25)), d(2023, 3, 24));
    assert_eq!(previous_day(d(2023, 3, 1)), d(2023, 2, 28));
    assert_eq!(previous_day(d(2024, 3, 1)), d(2024, 2, 29));
    assert_eq!(previous_day(d(2000, 3, 1)), d(2000, 2, 29));
    assert_eq!(previous_day(d(1900, 3, 1)), d(1900, 2, 28));
    assert_eq!(previous_day(d(2023, 5, 1)), d(2023, 4, 30));
    assert_eq!(previous_day(d(2023, 1, 1)), d(2022, 12, 31));
}

#[test]
fn stamp_errors() {
    let p = DateParser::new(anchor(), ZONE).unwrap();
    for raw in ["", "huomenna 12:00", "tänään 1:23", "21 huh", "21 hu 19:52", "121 huh 19:52"] {
        assert_eq!(
            p.parse(raw),
            Err(ParseError::InvalidHighlevelStructure(raw.to_string()))
        );
    }
    assert_eq!(
        p.parse("21 hup 19:52"),
        Err(ParseError::InvalidMonth("hup".to_string()))
    );
    assert_eq!(
        p.parse("21 huh 19:60"),
        Err(ParseError::InvalidTime("19:60".to_string()))
    );
    assert_eq!(
        p.parse("00 hup 99:99"),
        Err(ParseError::InvalidDay("00".to_string()))
    );
    // 31 April does not exist.
    assert_eq!(p.parse("31 huh 12:00"), Err(ParseError::ArithmeticProblem));
}

#[test]
fn clock_change_gap_is_an_arithmetic_problem() {
    // On 26 March 2023 Helsinki clocks jump from 03:00 to 04:00.
    let t = helsinki(2023, 3, 26, 12, 0);
    let p = DateParser::new(t, ZONE).unwrap();
    assert_eq!(p.parse("tänään 03:30"), Err(ParseError::ArithmeticProblem));
    assert_eq!(p.parse("tänään 04:30"), Ok(helsinki(2023, 3, 26, 4, 30)));
}

#[test]
fn stamp_whitespace_is_collapsed() {
    let p = DateParser::new(anchor(), ZONE).unwrap();
    assert_eq!(
        p.parse("  21\n\t huh   19:52 "),
        Ok(helsinki(2022, 4, 21, 19, 52))
    );
}

#[test]
fn tokenize_forms() {
    assert_eq!(
        tokenize(" eilen  15:59"),
        Some(Stamp::Relative {
            day: "eilen".to_string(),
            time: "15:59".to_string()
        })
    );
    assert_eq!(
        tokenize("5 Elo 07:00"),
        Some(Stamp::Absolute {
            day: "5".to_string(),
            month: "Elo".to_string(),
            time: "07:00".to_string()
        })
    );
    assert_eq!(tokenize("eilen 15:59 x"), None);
}

#[test]
fn unknown_zone_gives_no_resolver() {
    assert!(DateParser::new(anchor(), "Europe/Atlantis").is_none());
    assert!(Parser::new(anchor(), "Europe/Atlantis").is_none());
}

#[test]
fn other_zone_converts_differently() {
    let p = DateParser::new(anchor(), "UTC").unwrap();
    assert_eq!(
        p.parse("tänään 01:23"),
        Ok(Utc.with_ymd_and_hms(2023, 3, 25, 1, 23, 0).unwrap().timestamp())
    );
}

#[test]
fn normalize_examples_and_idempotence() {
    let samples = [
        "",
        "   ",
        "foo",
        "  foo   bar  ",
        "\t\t\t\t\tfoo\t\t\tbar\t\t",
        "a\u{a0}\u{a0}b\u{3000}c\n",
        "x \r\n y",
    ];
    let expected = ["", "", "foo", "foo bar", "foo bar", "a b c", "x y"];
    for (s, e) in samples.iter().zip(expected.iter()) {
        let once = reformat_ws(s);
        assert_eq!(&once, e);
        assert_eq!(reformat_ws(&once), once);
    }
}

#[test]
fn trim_and_prefix() {
    assert_eq!(trim_ws("  \u{a0}Bike for sale \n"), "Bike for sale");
    assert_eq!(trim_ws("   "), "");
    assert_eq!(strip_prefix("item_", "item_42"), Some("42".to_string()));
    assert_eq!(strip_prefix("item_", "ite"), None);
    assert_eq!(remove_prefix_maybe("", "abc"), "abc");
    assert_eq!(remove_prefix_maybe("abc", "abc"), "");
}

#[test]
fn price_values() {
    assert_eq!(price_parse("1 €"), Ok(euro(1)));
    assert_eq!(price_parse(" 1 599  €"), Ok(euro(1599)));
    assert_eq!(price_parse("1\u{a0}599\u{a0}€"), Ok(euro(1599)));
    assert_eq!(price_parse("Hinta: 20 € (neuvoteltavissa)"), Ok(euro(20)));
    assert_eq!(price_parse("2147483647 €"), Ok(euro(i32::MAX)));
    assert_eq!(price_parse("12 kpl, 30 €"), Ok(euro(30)));
}

#[test]
fn price_errors() {
    for bad in ["€", "abc €", "", "1599€", "1 599", "2147483648 €", "99 999 999 999 €"] {
        assert_eq!(
            price_parse(bad),
            Err(ItemParseErrorKind::InvalidPrice(bad.to_string()))
        );
    }
}

fn listing() -> Listing {
    Listing {
        id: Some("item_101".to_string()),
        company_ad: Some("1".to_string()),
        href: Some("/ad/101".to_string()),
        price_text: Some("1 599 €".to_string()),
        thumbnail: Some("/img/101.jpg".to_string()),
        title_html: Some("  Bike  ".to_string()),
        posted_at_html: Some("tänään\n   12:34".to_string()),
        combined: vec![
            " Helsinki ".to_string(),
            "Kallio".to_string(),
            "Pyörä\n Oy".to_string(),
            "Myyjä".to_string(),
        ],
    }
}

#[test]
fn listing_to_item() {
    let p = Parser::new(anchor(), ZONE).unwrap();
    let item = p.extract_item(0, &listing()).unwrap();
    assert_eq!(
        item,
        Item {
            item_id: "101".to_string(),
            direction: "Kallio".to_string(),
            title: "Bike".to_string(),
            price: Some(euro(1599)),
            location: "Helsinki".to_string(),
            seller: Some("Pyörä Oy Myyjä".to_string()),
            is_company_ad: true,
            href: "/ad/101".to_string(),
            thumbnail_url: Some("/img/101.jpg".to_string()),
            posted_at_orig: "tänään 12:34".to_string(),
            posted_at: helsinki(2023, 3, 25, 12, 34),
        }
    );
}

#[test]
fn listing_optional_fields() {
    let p = Parser::new(anchor(), ZONE).unwrap();
    let mut l = listing();
    l.price_text = Some(String::new());
    l.thumbnail = None;
    l.combined.truncate(2);
    l.company_ad = Some("0".to_string());
    let item = p.extract_item(3, &l).unwrap();
    assert_eq!(item.price, None);
    assert_eq!(item.thumbnail_url, None);
    assert_eq!(item.seller, None);
    assert!(!item.is_company_ad);
    l.price_text = None;
    assert_eq!(p.extract_item(3, &l).unwrap().price, None);
}

fn error_of(l: &Listing, idx: usize) -> ItemParseError {
    let p = Parser::new(anchor(), ZONE).unwrap();
    p.extract_item(idx, l).unwrap_err()
}

#[test]
fn listing_errors() {
    let known = Some("101".to_string());
    let err = |idx, id: Option<String>, error| ItemParseError {
        item_idx: idx,
        item_id: id,
        error,
    };
    let mut l = listing();
    l.id = None;
    assert_eq!(
        error_of(&l, 2),
        err(2, None, ItemParseErrorKind::MissingAttribute(ItemAttribute::ID))
    );
    l.id = Some("item_".to_string());
    assert_eq!(
        error_of(&l, 2),
        err(
            2,
            None,
            ItemParseErrorKind::UnexpectedValue(ItemAttribute::ID, "item_".to_string())
        )
    );
    l.id = Some("row_101".to_string());
    assert_eq!(
        error_of(&l, 2),
        err(
            2,
            None,
            ItemParseErrorKind::UnexpectedValue(ItemAttribute::ID, "row_101".to_string())
        )
    );
    let mut l = listing();
    l.company_ad = None;
    assert_eq!(
        error_of(&l, 0),
        err(0, known.clone(), ItemParseErrorKind::MissingAttribute(ItemAttribute::CompanyAd))
    );
    l.company_ad = Some("2".to_string());
    assert_eq!(
        error_of(&l, 0),
        err(
            0,
            known.clone(),
            ItemParseErrorKind::UnexpectedValue(ItemAttribute::CompanyAd, "2".to_string())
        )
    );
    let mut l = listing();
    l.href = None;
    assert_eq!(
        error_of(&l, 0),
        err(0, known.clone(), ItemParseErrorKind::MissingAttribute(ItemAttribute::Href))
    );
    let mut l = listing();
    l.price_text = Some("ilmainen".to_string());
    assert_eq!(
        error_of(&l, 0),
        err(0, known.clone(), ItemParseErrorKind::InvalidPrice("ilmainen".to_string()))
    );
    let mut l = listing();
    l.title_html = None;
    assert_eq!(
        error_of(&l, 0),
        err(0, known.clone(), ItemParseErrorKind::MissingAttribute(ItemAttribute::Title))
    );
    let mut l = listing();
    l.posted_at_html = None;
    assert_eq!(
        error_of(&l, 0),
        err(0, known.clone(), ItemParseErrorKind::MissingAttribute(ItemAttribute::PostedAt))
    );
    l.posted_at_html = Some("huomenna 12:00".to_string());
    assert_eq!(
        error_of(&l, 0),
        err(
            0,
            known.clone(),
            ItemParseErrorKind::InvalidDate(ParseError::InvalidHighlevelStructure(
                "huomenna 12:00".to_string()
            ))
        )
    );
    let mut l = listing();
    l.combined.clear();
    assert_eq!(
        error_of(&l, 0),
        err(0, known.clone(), ItemParseErrorKind::MissingAttribute(ItemAttribute::Location))
    );
    l.combined.push("Helsinki".to_string());
    assert_eq!(
        error_of(&l, 0),
        err(0, known, ItemParseErrorKind::MissingAttribute(ItemAttribute::Direction))
    );
}

#[test]
fn first_failing_listing_fails_the_page() {
    let p = Parser::new(anchor(), ZONE).unwrap();
    let mut bad = listing();
    bad.id = Some("item_7".to_string());
    bad.title_html = None;
    let mut worse = listing();
    worse.id = None;
    let ls = vec![listing(), bad, worse];
    assert_eq!(
        p.extract_items(&ls),
        Err(ItemParseError {
            item_idx: 1,
            item_id: Some("7".to_string()),
            error: ItemParseErrorKind::MissingAttribute(ItemAttribute::Title),
        })
    );
    assert_eq!(p.extract_items(&vec![]), Ok(vec![]));
    assert_eq!(p.extract_items(&vec![listing(), listing()]).unwrap().len(), 2);
}

fn row(id: u32, title: Option<&str>, stamp: &str, extra: &str) -> String {
    let title = match title {
        Some(t) => format!("<div><div class=\"li-title\"> {} </div></div>", t),
        None => String::new(),
    };
    format!(
        "<a data-row=\"{id}\" id=\"item_{id}\" data-company-ad=\"0\" href=\"/ad/{id}\">\
         <div><img class=\"item_image\" src=\"/img/{id}.jpg\"></div>\
         {title}\
         <p class=\"ineuros\">{id} €</p>\
         <div><div class=\"date_image\">{stamp}</div></div>\
         <div><div class=\"cat_geo\"><p>Helsinki</p><p>Kallio</p>{extra}</div></div>\
         </a>"
    )
}

fn page(rows: &[String]) -> String {
    format!("<!DOCTYPE html><html><body><div>{}</div></body></html>", rows.concat())
}

#[test]
fn page_with_well_formed_listings() {
    let p = Parser::new(anchor(), ZONE).unwrap();
    let html = page(&[
        row(1, Some("Bike"), "tänään 12:34", ""),
        row(2, Some("Sofa"), "eilen\n 09:00", "<p>Jane</p>"),
        row(3, Some("Lamp &amp; shade"), "21 huh 19:52", ""),
    ]);
    let items = p.parse_from_string(&html).unwrap();
    assert_eq!(items.len(), 3);
    assert_eq!(items[0].item_id, "1");
    assert_eq!(items[0].title, "Bike");
    assert_eq!(items[0].href, "/ad/1");
    assert_eq!(items[0].price, Some(euro(1)));
    assert_eq!(items[0].thumbnail_url, Some("/img/1.jpg".to_string()));
    assert_eq!(items[0].location, "Helsinki");
    assert_eq!(items[0].direction, "Kallio");
    assert_eq!(items[0].seller, None);
    assert_eq!(items[0].posted_at, helsinki(2023, 3, 25, 12, 34));
    assert_eq!(items[1].seller, Some("Jane".to_string()));
    assert_eq!(items[1].posted_at_orig, "eilen 09:00");
    assert_eq!(items[1].posted_at, helsinki(2023, 3, 24, 9, 0));
    assert_eq!(items[2].title, "Lamp &amp; shade");
    assert_eq!(items[2].posted_at, helsinki(2022, 4, 21, 19, 52));
}

#[test]
fn page_with_a_listing_without_title() {
    let p = Parser::new(anchor(), ZONE).unwrap();
    let html = page(&[
        row(1, Some("Bike"), "tänään 12:34", ""),
        row(2, None, "tänään 12:35", ""),
        row(3, Some("Lamp"), "tänään 12:36", ""),
    ]);
    assert_eq!(
        p.parse_from_string(&html),
        Err(ItemParseError {
            item_idx: 1,
            item_id: Some("2".to_string()),
            error: ItemParseErrorKind::MissingAttribute(ItemAttribute::Title),
        })
    );
}

#[test]
fn page_without_listings() {
    let p = Parser::new(anchor(), ZONE).unwrap();
    assert_eq!(p.parse_from_string("<html><body><p>Ei tuloksia</p></body></html>"), Ok(vec![]));
}

#[test]
fn listing_read_from_a_node() {
    let p = Parser::new(anchor(), ZONE).unwrap();
    let doc = scraper::Html::parse_document(&page(&[row(9, Some("Chair"), "3 tam 08:00", "<p>A</p><p>B</p>")]));
    let ls = p.read_listings(&doc);
    assert_eq!(ls.len(), 1);
    assert_eq!(ls[0].id, Some("item_9".to_string()));
    assert_eq!(ls[0].company_ad, Some("0".to_string()));
    assert_eq!(ls[0].href, Some("/ad/9".to_string()));
    assert_eq!(ls[0].price_text, Some("9 €".to_string()));
    assert_eq!(ls[0].thumbnail, Some("/img/9.jpg".to_string()));
    assert_eq!(ls[0].title_html, Some(" Chair ".to_string()));
    assert_eq!(ls[0].posted_at_html, Some("3 tam 08:00".to_string()));
    assert_eq!(ls[0].combined, vec!["Helsinki", "Kallio", "A", "B"]);
    let items = p.parse_document(&doc).unwrap();
    assert_eq!(items[0].seller, Some("A B".to_string()));
    assert_eq!(items[0].posted_at, helsinki(2023, 1, 3, 8, 0));
}

#[test]
fn yesterday_whose_clock_time_falls_in_a_gap() {
    // 03:30 on 26 March 2023 does not exist in Helsinki; the day before the
    // fetch moment is still 26 March.
    let t = helsinki(2023, 3, 27, 3, 30);
    let p = Parser::new(t, ZONE).unwrap();
    assert_eq!(p.parse_posted_at("eilen 12:00"), Ok(helsinki(2023, 3, 26, 12, 0)));
}

#[test]
fn clock_turned_back_is_an_arithmetic_problem() {
    // On 29 October 2023 Helsinki clocks go back from 04:00 to 03:00, so
    // 03:30 is shown twice.
    let t = helsinki(2023, 10, 29, 12, 0);
    let p = DateParser::new(t, ZONE).unwrap();
    assert_eq!(p.parse("tänään 03:30"), Err(ParseError::ArithmeticProblem));
    assert_eq!(p.parse("tänään 02:30"), Ok(helsinki(2023, 10, 29, 2, 30)));
}
