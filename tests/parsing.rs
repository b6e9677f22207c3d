use pdd_bot::datetime::{
    parse_datetime, parse_flexible_datetime, pick_instant, resolve_instant, CivilDateTime, LocalInstant,
    LocalInstants,
};
use pdd_bot::decimal::parse_decimal;
use pdd_bot::entry::{parse_glucose_payload, split_note, EntryError, GlucoseTag};
use pdd_bot::get_version_str;

fn chars(s: &str) -> Vec<char> {
    s.chars().collect()
}

fn text(v: &[char]) -> String {
    v.iter().collect()
}

fn decimal_text(s: &str) -> Option<String> {
    parse_decimal(s).map(|d| d.to_text())
}

#[test]
fn comma_and_point_give_the_same_number() {
    assert_eq!(decimal_text("5,8"), Some("5.8".to_string()));
    assert_eq!(decimal_text("5.8"), Some("5.8".to_string()));
    assert_eq!(decimal_text(" 78,40 "), decimal_text("78.4"));
    assert_eq!(decimal_text("-007,050"), Some("-7.05".to_string()));
    assert_eq!(decimal_text("+0,5"), decimal_text("+0.5"));
}

#[test]
fn decimal_forms() {
    assert_eq!(decimal_text("05"), Some("5".to_string()));
    assert_eq!(decimal_text(".5"), Some("0.5".to_string()));
    assert_eq!(decimal_text("5."), Some("5".to_string()));
    assert_eq!(decimal_text("+3"), Some("3".to_string()));
    assert_eq!(decimal_text("-2,50"), Some("-2.5".to_string()));
    assert_eq!(decimal_text("0"), Some("0".to_string()));
}

#[test]
fn decimal_rejects_malformed_text() {
    assert_eq!(decimal_text("abc"), None);
    assert_eq!(decimal_text(""), None);
    assert_eq!(decimal_text("."), None);
    assert_eq!(decimal_text("1,2,3"), None);
    assert_eq!(decimal_text("5 8"), None);
    assert_eq!(decimal_text("-"), None);
}

fn feb_first() -> CivilDateTime {
    CivilDateTime { year: 2024, month: 2, day: 1, hour: 9, minute: 5 }
}

#[test]
fn all_date_forms_name_the_same_time() {
    for s in ["2/1 9:05", "02/01 09:05", "24/2/1 9:05", "2024/2/1 9:05"] {
        assert_eq!(parse_datetime(s, 2024), Ok(feb_first()), "{s}");
    }
}

#[test]
fn dash_and_point_separate_dates() {
    assert_eq!(parse_datetime("2024-2-1 9:05", 2024), Ok(feb_first()));
    assert_eq!(parse_datetime("24.02.01 9:05", 2030), Ok(feb_first()));
    assert_eq!(parse_datetime("  2/1   9:05 ", 2024), Ok(feb_first()));
}

#[test]
fn february_thirtieth_is_invalid() {
    assert_eq!(parse_datetime("2/30 9:05", 2024), Err(EntryError::InvalidDateTime));
}

#[test]
fn leap_days() {
    assert_eq!(parse_datetime("2/29 0:00", 2023), Err(EntryError::InvalidDateTime));
    assert_eq!(
        parse_datetime("2/29 0:00", 2024),
        Ok(CivilDateTime { year: 2024, month: 2, day: 29, hour: 0, minute: 0 })
    );
    assert_eq!(parse_datetime("1900/2/29 0:00", 2024), Err(EntryError::InvalidDateTime));
}

#[test]
fn datetime_rejects_malformed_text() {
    for s in ["2/1 24:00", "2/1 9:60", "2/1", "2/1 9:05 x", "2/1 9", "1/2/3/4 9:05", "a/1 9:05", "13/1 9:05", ""] {
        assert_eq!(parse_datetime(s, 2024), Err(EntryError::InvalidDateTime), "{s}");
    }
}

#[test]
fn large_years_are_kept() {
    assert_eq!(
        parse_datetime("100/1/2 3:04", 2024),
        Ok(CivilDateTime { year: 100, month: 1, day: 2, hour: 3, minute: 4 })
    );
    assert_eq!(parse_datetime("999999/1/2 3:04", 2024), Err(EntryError::InvalidDateTime));
}

#[test]
fn note_follows_the_first_at_sign() {
    let (before, note) = split_note(&chars("5.8 2/1 9:05 @before breakfast"));
    assert_eq!(text(&before), "5.8 2/1 9:05");
    assert_eq!(note.map(|n| text(&n)), Some("before breakfast".to_string()));
    let (_, empty) = split_note(&chars("5.8 @"));
    assert!(empty.is_none());
    let (_, two) = split_note(&chars("5.8 @  a@b"));
    assert_eq!(two.map(|n| text(&n)), Some(" a@b".to_string()));
}

#[test]
fn text_before_the_note_is_trimmed() {
    let (before, note) = split_note(&chars("5.8 @"));
    assert_eq!((text(&before), note), ("5.8".to_string(), None));
    let (before, note) = split_note(&chars("5.8 @  x "));
    assert_eq!((text(&before), note.map(|n| text(&n))), ("5.8".to_string(), Some(" x ".to_string())));
    let (before, note) = split_note(&chars(" 5.8 "));
    assert_eq!((text(&before), note), ("5.8".to_string(), None));
}

#[test]
fn earlier_instant_wins_when_the_clock_goes_back() {
    let daylight = LocalInstant { text: "2023-10-29T02:30:00+02:00".to_string(), utc_seconds: 1698539400 };
    let standard = LocalInstant { text: "2023-10-29T02:30:00+01:00".to_string(), utc_seconds: 1698543000 };
    assert_eq!(
        pick_instant(LocalInstants::Ambiguous(standard, daylight)),
        Some("2023-10-29T02:30:00+02:00".to_string())
    );
    let daylight = LocalInstant { text: "D".to_string(), utc_seconds: 10 };
    let standard = LocalInstant { text: "S".to_string(), utc_seconds: 20 };
    assert_eq!(pick_instant(LocalInstants::Ambiguous(daylight, standard)), Some("D".to_string()));
    let single = LocalInstant { text: "T".to_string(), utc_seconds: 0 };
    assert_eq!(pick_instant(LocalInstants::Single(single)), Some("T".to_string()));
    assert_eq!(pick_instant(LocalInstants::Missing), None);
}

#[test]
fn glucose_payload_with_everything() {
    let e = parse_glucose_payload(&chars("5,8 2/1 9:05 @before breakfast"), 2024).ok().unwrap();
    assert_eq!(e.value.to_text(), "5.8");
    assert_eq!(e.when, Some(feb_first()));
    assert_eq!(e.note.map(|n| text(&n)), Some("before breakfast".to_string()));
}

#[test]
fn glucose_payload_value_only() {
    let e = parse_glucose_payload(&chars("7.2"), 2024).ok().unwrap();
    assert_eq!(e.value.to_text(), "7.2");
    assert!(e.when.is_none());
    assert!(e.note.is_none());
}

#[test]
fn glucose_payload_errors() {
    assert_eq!(parse_glucose_payload(&chars("@note"), 2024).err(), Some(EntryError::MissingValue));
    assert_eq!(parse_glucose_payload(&chars("x 2/1 9:05"), 2024).err(), Some(EntryError::NotANumber));
    assert_eq!(parse_glucose_payload(&chars("5.8 2/1"), 2024).err(), Some(EntryError::InvalidDateTime));
    assert_eq!(parse_glucose_payload(&chars("5.8 2/30 9:05"), 2024).err(), Some(EntryError::InvalidDateTime));
}

#[test]
fn glucose_tags() {
    assert_eq!(GlucoseTag::BeforeMeal.as_csv_tag(), "before_meal");
    assert_eq!(GlucoseTag::AfterMeal.as_csv_tag(), "after_meal");
}

#[test]
fn civil_time_resolves_to_an_instant() {
    let c = CivilDateTime { year: 2024, month: 2, day: 1, hour: 12, minute: 5 };
    let t = resolve_instant(&c).unwrap();
    assert!(t.starts_with("2024-02-01T12:05:00"), "{t}");
    let c = CivilDateTime { year: 999, month: 12, day: 31, hour: 23, minute: 59 };
    let t = resolve_instant(&c).unwrap();
    assert!(t.starts_with("0999-12-31T23:59:00"), "{t}");
}

#[test]
fn flexible_datetime_uses_the_clock() {
    let t = parse_flexible_datetime("2024/2/1 12:05").unwrap();
    assert!(t.starts_with("2024-02-01T12:05:00"), "{t}");
    assert_eq!(parse_flexible_datetime("2/30 9:05"), Err(EntryError::InvalidDateTime));
    assert!(parse_flexible_datetime("3/1 12:00").is_ok());
}

#[test]
fn version_marker() {
    assert_eq!(get_version_str(), "\0Ver.:0.1.0\0");
}
