use planner::util::{
    day_mask_from_date, day_mask_from_weekday, is_existing_date, expand_html_macros, get_uri_queries, hash_string,
    match_param, parse_date, Date, MatchParamError, Weekday, APP_TITLE,
};
use std::hash::{DefaultHasher, Hash, Hasher};

#[test]
fn parse_date_reads_three_fields() {
    assert_eq!(parse_date("2024-05-06"), Some(Date { year: 2024, month: 5, day: 6 }));
    assert_eq!(parse_date("2024-05-00"), Some(Date { year: 2024, month: 5, day: 0 }));
    assert_eq!(parse_date("2024-05-06-extra"), Some(Date { year: 2024, month: 5, day: 6 }));
    assert_eq!(parse_date("2024-05"), None);
    assert_eq!(parse_date("2024-xx-06"), None);
    assert_eq!(parse_date("-2024-05-06"), None);
    assert_eq!(parse_date(""), None);
}

#[test]
fn date_display_pads_to_two() {
    assert_eq!(Date { year: 2024, month: 5, day: 6 }.to_string(), "2024-05-06");
    assert_eq!(Date { year: 2024, month: 12, day: 0 }.to_string(), "2024-12-00");
    assert_eq!(Date { year: 7, month: -3, day: 123 }.to_string(), format!("{:02}-{:02}-{:02}", 7, -3, 123));
    assert_eq!(Date { year: i32::MIN, month: 1, day: 1 }.to_string(), format!("{:02}-01-01", i32::MIN));
}

#[test]
fn displayed_date_reads_back() {
    for d in [Date { year: 2024, month: 2, day: 29 }, Date { year: 0, month: 0, day: 0 }, Date { year: 5, month: 9, day: 31 }] {
        assert_eq!(parse_date(&d.to_string()), Some(d));
    }
}

#[test]
fn day_masks_follow_weekdays() {
    // 2024-01-07 was a Sunday.
    let masks: Vec<i32> = (7..14).map(|d| day_mask_from_date(Date { year: 2024, month: 1, day: d })).collect();
    assert_eq!(masks, vec![1, 2, 4, 8, 16, 32, 64]);
    assert_eq!(day_mask_from_date(Date { year: 2000, month: 2, day: 29 }), 4);
    assert_eq!(day_mask_from_weekday(Weekday::Sun), 1);
    assert_eq!(day_mask_from_weekday(Weekday::Sat), 64);
}

#[test]
fn hash_string_is_the_default_hasher() {
    for s in ["", "secret", "pässwörd"] {
        let mut h = DefaultHasher::new();
        s.hash(&mut h);
        assert_eq!(hash_string(s), h.finish());
    }
    assert_ne!(hash_string("a"), hash_string("b"));
}

#[test]
fn match_param_reports_each_error() {
    assert_eq!(match_param(Some("42")), Ok(42));
    assert_eq!(match_param(Some("-1")), Ok(-1));
    assert_eq!(match_param(Some("x")), Err(MatchParamError::Parse));
    assert_eq!(match_param(None), Err(MatchParamError::Get));
}

#[test]
fn query_string_keeps_last_value() {
    let q = get_uri_queries("a=1&b=2&a=3&flag&=v&c=x=y&d=");
    let mut got: Vec<(String, String)> = q.iter().map(|(k, v)| (k.to_string(), v.to_string())).collect();
    got.sort();
    let expected: Vec<(String, String)> = vec![
        ("".into(), "v".into()),
        ("a".into(), "3".into()),
        ("b".into(), "2".into()),
        ("c".into(), "x".into()),
        ("d".into(), "".into()),
    ];
    assert_eq!(got, expected);
    assert!(get_uri_queries("").is_empty());
}

#[test]
fn page_macros_are_expanded() {
    assert_eq!(APP_TITLE, "Productivity Tracker");
    assert_eq!(
        expand_html_macros("<title>$TITLE$</title><h1>$TITLE$</h1>"),
        "<title>Productivity Tracker</title><h1>Productivity Tracker</h1>"
    );
    let page = expand_html_macros("$$TITLE$TITLE$$");
    assert!(!page.contains("$TITLE$"));
    assert_eq!(page, "$Productivity TrackerTITLE$$");
}

#[test]
fn existing_dates_are_the_ones_chrono_accepts() {
    for (y, m, d) in [
        (2024, 2, 29), (2023, 2, 29), (1900, 2, 29), (2000, 2, 29), (2024, 4, 31), (2024, 12, 31),
        (2024, 13, 1), (2024, 0, 1), (2024, 1, 0), (2024, -1, 1), (-4, 2, 29), (-262143, 1, 1),
        (-262144, 12, 31), (262142, 12, 31), (262143, 1, 1), (i32::MAX, 1, 1),
    ] {
        let date = Date { year: y, month: m, day: d };
        let chrono_ok = chrono::NaiveDate::from_ymd_opt(y, m as u32, d as u32).is_some();
        assert_eq!(is_existing_date(&date), chrono_ok, "{y}-{m}-{d}");
    }
}

fn civil_weekday_index(y: i64, m: i64, d: i64) -> i64 {
    let leap = |y: i64| (y % 4 == 0 && y % 100 != 0) || y % 400 == 0;
    let leaps_before = (y + 3).div_euclid(4) - (y + 99).div_euclid(100) + (y + 399).div_euclid(400);
    let cum = [0, 31, 59, 90, 120, 151, 181, 212, 243, 273, 304, 334][(m - 1) as usize]
        + if m > 2 && leap(y) { 1 } else { 0 };
    let n = 365 * y + leaps_before + cum + d - 1;
    (n + 5).rem_euclid(7)
}

#[test]
fn day_masks_follow_the_calendar_and_rotate() {
    let mut prev: Option<i32> = None;
    for y in [-401, -400, -5, -4, -1, 0, 1, 1899, 1900, 1970, 1999, 2000, 2023, 2024, 2100, 262142] {
        prev = None;
        for m in 1..=12 {
            for d in 1..=31 {
                let date = Date { year: y, month: m, day: d };
                if !is_existing_date(&date) {
                    continue;
                }
                let mask = day_mask_from_date(date);
                let expected = 1 << ((civil_weekday_index(y as i64, m as i64, d as i64) + 1) % 7);
                assert_eq!(mask, expected, "{y}-{m}-{d}");
                if let Some(p) = prev {
                    assert_eq!(mask, if p == 64 { 1 } else { p * 2 });
                }
                prev = Some(mask);
            }
        }
    }
    assert!(prev.is_some());
}
