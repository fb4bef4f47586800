use chrono::{DateTime, Datelike, TimeZone, Utc};
use nihonify::{is_jp, to_jp_intstring, utc_dt, Era, Jidai, UtcDate};

fn utc_date(dt: DateTime<Utc>) -> UtcDate {
    UtcDate {
        timestamp: dt.timestamp(),
        month: dt.month(),
        day: dt.day(),
    }
}

#[test]
fn test_from_unix_epoch_various_eras() {
    assert_eq!(
        Era::from_unix_epoch(-1556668810).unwrap().romaji,
        Some("taishou")
    );
    assert_eq!(
        Era::from_unix_epoch(-23123213123).unwrap().romaji,
        Some("katei")
    );
}

#[test]
fn test_from_unix_epoch_first_era_boundary_cases() {
    assert_eq!(Era::from_unix_epoch(-41795654401).is_none(), true);
    assert_eq!(Era::from_unix_epoch(-41795654399).is_none(), false);
    assert_eq!(
        Era::from_unix_epoch(-41795654399).unwrap().romaji,
        Some("taika")
    );
}

#[test]
fn test_from_unix_epoch_last_era_boundary_cases() {
    assert_eq!(
        Era::from_unix_epoch(1636346788).unwrap().romaji,
        Some("reiwa")
    );
    assert_eq!(
        Era::from_unix_epoch(7636346788).unwrap().romaji,
        Some("reiwa")
    );
}

#[test]
fn test_to_jp_nenkou_string() {
    assert_eq!(
        Era::to_jp_nenkou_string(utc_date(Utc.from_utc_datetime(
            &DateTime::parse_from_rfc3339("2021-11-12T22:10:57Z")
                .unwrap()
                .naive_utc()
        ))),
        Some("令和３年１１月１２日".to_owned())
    );
    assert_eq!(
        Era::to_jp_nenkou_string(utc_dt("2019-06-13").unwrap()),
        Some("令和１年６月１３日".to_owned())
    );
}

#[test]
fn test_is_jp() {
    assert!(!is_jp("testing 123 Hello, world!"));
    assert!(is_jp("日本語の文です。"));
}

#[test]
fn before_first_era_is_none() {
    assert!(Era::from_unix_epoch(i64::MIN).is_none());
    assert!(Era::from_unix_epoch(-41795654400 - 1000).is_none());
}

#[test]
fn exact_era_start_is_that_era() {
    // an era's starting instant lies in that era
    assert_eq!(Era::from_unix_epoch(-41795654400).unwrap().romaji, Some("taika"));
    assert_eq!(Era::from_unix_epoch(1556668800).unwrap().romaji, Some("reiwa"));
    assert_eq!(Era::from_unix_epoch(600220800).unwrap().romaji, Some("heisei"));
    assert_eq!(Era::from_unix_epoch(1556668801).unwrap().romaji, Some("reiwa"));
    assert_eq!(Era::from_unix_epoch(1556668799).unwrap().romaji, Some("heisei"));
}

#[test]
fn resolving_twice_agrees() {
    let a = Era::from_unix_epoch(600220801).unwrap();
    let b = Era::from_unix_epoch(600220801).unwrap();
    assert_eq!(a.romaji, b.romaji);
    assert_eq!(a.started_at, b.started_at);
    assert_eq!(a.romaji, Some("heisei"));
}

#[test]
fn far_future_is_current_era() {
    let e = Era::from_unix_epoch(i64::MAX).unwrap();
    assert_eq!(e.romaji, Some("reiwa"));
    assert_eq!(e.kanji, Some("令和"));
    assert!(matches!(e.jidai, Jidai::Modern));
    assert_eq!(e.ended_at, None);
}

#[test]
fn fullwidth_digits() {
    assert_eq!(to_jp_intstring(0), "０");
    assert_eq!(to_jp_intstring(7), "７");
    assert_eq!(to_jp_intstring(1234567890), "１２３４５６７８９０");
    assert_eq!(to_jp_intstring(u64::MAX), "１８４４６７４４０７３７０９５５１６１５");
    for n in [0u64, 9, 10, 305, 2021] {
        let ascii = n.to_string();
        let wide = to_jp_intstring(n);
        assert_eq!(wide.chars().count(), ascii.chars().count());
        for (a, w) in ascii.chars().zip(wide.chars()) {
            assert_eq!(w as u32, a as u32 + 65248);
        }
    }
}

#[test]
fn kana_detection() {
    assert!(!is_jp(""));
    assert!(is_jp("ひらがな"));
    assert!(is_jp("カタカナ"));
    assert!(is_jp("abcㇰ"));
    assert!(!is_jp("日本語"));
}

#[test]
fn nenkou_at_era_start_and_later() {
    let d = UtcDate { timestamp: -41795654400, month: 7, day: 20 };
    assert_eq!(Era::to_jp_nenkou_string(d), Some("大化１年７月２０日".to_owned()));
    let d = UtcDate { timestamp: -41795654400 + 86400 * 365 * 2, month: 7, day: 20 };
    assert_eq!(Era::to_jp_nenkou_string(d), Some("大化３年７月２０日".to_owned()));
}

#[test]
fn from_datetime_matches_timestamp() {
    let d = utc_dt("1950-01-01").unwrap();
    assert_eq!(d.month, 1);
    assert_eq!(d.day, 1);
    assert_eq!(Era::from_datetime(d).unwrap().romaji, Some("shouwa"));
}

#[test]
fn utc_dt_rejects_bad_text() {
    assert!(utc_dt("not a date").is_none());
    assert!(utc_dt("2021-13-40").is_none());
}

#[test]
fn utc_date_validity() {
    assert!(UtcDate { timestamp: 0, month: 1, day: 1 }.is_valid());
    assert!(UtcDate { timestamp: 0, month: 12, day: 31 }.is_valid());
    assert!(!UtcDate { timestamp: 0, month: 13, day: 1 }.is_valid());
    assert!(!UtcDate { timestamp: 0, month: 0, day: 1 }.is_valid());
    assert!(!UtcDate { timestamp: 0, month: 6, day: 0 }.is_valid());
    assert!(utc_dt("2019-06-13").unwrap().is_valid());
}
