use pdd_bot::decimal::parse_decimal;
use pdd_bot::entry::GlucoseTag;
use pdd_bot::medication::{medication_exists, medication_list, medication_to_add, normalize_medication_name};
use pdd_bot::pending::{PendingEntry, PendingState};
use pdd_bot::record::{glucose_line, lines_to_append, medication_line, weight_line, RecordKind};
use pdd_bot::router::{
    commit, decide, menu_keyboard, settle, Config, Decision, Notice, PendingChange,
    BTN_SHOW_MENU, BTN_WEIGHT,
};
use std::collections::HashSet;

fn chars(s: &str) -> Vec<char> {
    s.chars().collect()
}

fn config(ids: &[i64]) -> Config {
    Config { allowed_chat_ids: ids.iter().copied().collect::<HashSet<i64>>() }
}

#[test]
fn added_medication_is_found_in_any_case() {
    let empty: Vec<String> = Vec::new();
    let added = medication_to_add(&empty, "Aspirin").unwrap();
    assert_eq!(added, "Aspirin");
    let stored = format!("{added}\n");
    let meds = medication_list(&stored);
    assert_eq!(meds, vec!["Aspirin".to_string()]);
    assert!(medication_exists(&meds, "aspirin"));
    assert_eq!(medication_to_add(&meds, "aspirin"), None);
}

#[test]
fn medication_names_are_normalized() {
    assert_eq!(normalize_medication_name("  Vitamin \t  D "), "Vitamin D");
    let empty: Vec<String> = Vec::new();
    assert_eq!(medication_to_add(&empty, "   "), None);
    let meds = vec!["Vitamin D".to_string()];
    assert!(medication_exists(&meds, " vitamin   d"));
    assert!(!medication_exists(&meds, "vitamin"));
}

#[test]
fn medication_list_skips_blanks_and_repeats() {
    let meds = medication_list("a\nA\n\n  b   c \r\nd");
    assert_eq!(meds, vec!["a".to_string(), "b c".to_string(), "d".to_string()]);
    assert!(medication_list("").is_empty());
}

#[test]
fn pending_weight_survives_a_bad_reply() {
    let cfg = config(&[42]);
    let meds: Vec<String> = Vec::new();
    let mut pending = PendingState::new();
    pending.set(42, PendingEntry::Weight);

    let d = decide(&cfg, &pending, 42, "abc", &meds, 2024);
    assert!(matches!(d, Decision::Reply(Notice::WeightNotANumber)));
    let o = settle(d, 42, None, "T0");
    assert!(o.append.is_none());
    let reply = commit(&mut pending, 42, o, false);
    assert_eq!(reply.as_deref(), Some("Could not parse number. Use format like 78.4 (dot or comma)."));
    assert_eq!(pending.get(42), Some(PendingEntry::Weight));

    let d = decide(&cfg, &pending, 42, "78.4", &meds, 2024);
    assert!(matches!(d, Decision::LogWeight { .. }));
    let o = settle(d, 42, None, "T1");
    let a = o.append.as_ref().unwrap();
    assert_eq!(a.kind, RecordKind::Weight);
    assert_eq!(a.line, "T1,42,78.4");
    let reply = commit(&mut pending, 42, o, true);
    assert_eq!(reply.as_deref(), Some("Saved \u{2705}"));
    assert_eq!(pending.get(42), None);
}

#[test]
fn failed_write_keeps_pending_and_sends_nothing() {
    let cfg = config(&[42]);
    let meds: Vec<String> = Vec::new();
    let mut pending = PendingState::new();
    pending.set(42, PendingEntry::Weight);
    let d = decide(&cfg, &pending, 42, "80", &meds, 2024);
    let o = settle(d, 42, None, "T");
    assert_eq!(commit(&mut pending, 42, o, false), None);
    assert_eq!(pending.get(42), Some(PendingEntry::Weight));
}

#[test]
fn three_glucose_records_get_one_header() {
    let mut file: Option<Vec<String>> = None;
    for line in ["r1", "r2", "r3"] {
        let add = lines_to_append(RecordKind::Glucose, file.is_some(), line.to_string());
        let mut lines = file.take().unwrap_or_default();
        lines.extend(add);
        file = Some(lines);
    }
    assert_eq!(
        file.unwrap(),
        vec![
            "timestamp,chat_id,tag,value_mmol_l,note".to_string(),
            "r1".to_string(),
            "r2".to_string(),
            "r3".to_string()
        ]
    );
}

#[test]
fn headers_and_file_names() {
    assert_eq!(RecordKind::Weight.header(), Some("timestamp,chat_id,value_kg"));
    assert_eq!(RecordKind::MedicationLog.header(), Some("timestamp,chat_id,medication"));
    assert_eq!(RecordKind::MedicationNames.header(), None);
    assert_eq!(lines_to_append(RecordKind::MedicationNames, false, "x".to_string()), vec!["x".to_string()]);
    assert_eq!(RecordKind::Glucose.file_name(), "glucose.csv");
    assert_eq!(RecordKind::MedicationNames.file_name(), "medications.txt");
}

#[test]
fn unlisted_chat_is_ignored() {
    let cfg = config(&[1]);
    let meds: Vec<String> = Vec::new();
    let mut pending = PendingState::new();
    pending.set(2, PendingEntry::Weight);
    let d = decide(&cfg, &pending, 2, "/menu", &meds, 2024);
    assert!(matches!(d, Decision::Ignore));
    let o = settle(d, 2, None, "T");
    assert!(o.reply.is_none() && o.append.is_none());
    assert_eq!(o.pending, PendingChange::Keep);
    assert_eq!(commit(&mut pending, 2, o, true), None);
    assert_eq!(pending.get(2), Some(PendingEntry::Weight));
}

#[test]
fn record_lines() {
    let v = parse_decimal("5,80").unwrap();
    let note = chars("say \"hi\", ok");
    assert_eq!(
        glucose_line("2024-02-01T09:05:00+01:00", 42, GlucoseTag::BeforeMeal, &v, &note),
        "2024-02-01T09:05:00+01:00,42,before_meal,5.8,\"say \"\"hi\"\", ok\""
    );
    assert_eq!(glucose_line("T", -7, GlucoseTag::AfterMeal, &v, &Vec::new()), "T,-7,after_meal,5.8,\"\"");
    assert_eq!(weight_line("T", 9223372036854775807, &v), "T,9223372036854775807,5.8");
    assert_eq!(medication_line("T", -9223372036854775808, &chars("A\"B")), "T,-9223372036854775808,\"A\"\"B\"");
}

#[test]
fn direct_glucose_command_leaves_pending_alone() {
    let cfg = config(&[5]);
    let meds: Vec<String> = Vec::new();
    let mut pending = PendingState::new();
    pending.set(5, PendingEntry::Weight);
    let d = decide(&cfg, &pending, 5, "/addgb 6,1 @after walk", &meds, 2024);
    assert!(matches!(d, Decision::LogGlucose { tag: GlucoseTag::BeforeMeal, from_pending: false, .. }));
    let o = settle(d, 5, None, "T");
    assert_eq!(o.append.as_ref().unwrap().line, "T,5,before_meal,6.1,\"after walk\"");
    assert_eq!(commit(&mut pending, 5, o, true).as_deref(), Some("Glucose entry saved \u{2705}"));
    assert_eq!(pending.get(5), Some(PendingEntry::Weight));
}

#[test]
fn glucose_command_forms() {
    let cfg = config(&[5]);
    let meds: Vec<String> = Vec::new();
    let pending = PendingState::new();
    assert!(matches!(decide(&cfg, &pending, 5, "/addgb", &meds, 2024), Decision::Reply(Notice::GlucoseUsage)));
    assert!(matches!(decide(&cfg, &pending, 5, "/addga   ", &meds, 2024), Decision::Reply(Notice::GlucoseUsage)));
    assert!(matches!(
        decide(&cfg, &pending, 5, "/add_glucose_after 7", &meds, 2024),
        Decision::LogGlucose { tag: GlucoseTag::AfterMeal, .. }
    ));
    assert!(matches!(decide(&cfg, &pending, 5, "/addgb x", &meds, 2024), Decision::Reply(Notice::InvalidValue)));
    assert!(matches!(
        decide(&cfg, &pending, 5, "/addgb 5 2/30 9:00", &meds, 2024),
        Decision::Reply(Notice::InvalidDateTime)
    ));
    assert!(matches!(decide(&cfg, &pending, 5, "/addgbx 5", &meds, 2024), Decision::Reply(Notice::Fallback)));
}

#[test]
fn glucose_with_time_needs_an_instant() {
    let cfg = config(&[5]);
    let meds: Vec<String> = Vec::new();
    let mut pending = PendingState::new();
    pending.set(5, PendingEntry::Glucose(GlucoseTag::AfterMeal));
    let d = decide(&cfg, &pending, 5, "7.2 2/1 11:00", &meds, 2024);
    let o = settle(d, 5, None, "T");
    assert!(o.append.is_none());
    assert_eq!(o.reply.as_deref(), Some(Notice::InvalidDateTime.text()));
    let d = decide(&cfg, &pending, 5, "7.2 2/1 11:00", &meds, 2024);
    let o = settle(d, 5, Some("2024-02-01T11:00:00+01:00".to_string()), "T");
    assert_eq!(o.append.as_ref().unwrap().line, "2024-02-01T11:00:00+01:00,5,after_meal,7.2,\"\"");
    assert_eq!(commit(&mut pending, 5, o, true).as_deref(), Some("Saved \u{2705}"));
    assert_eq!(pending.get(5), None);
}

#[test]
fn buttons_arm_pending_entries() {
    let cfg = config(&[5]);
    let meds: Vec<String> = Vec::new();
    let mut pending = PendingState::new();
    let d = decide(&cfg, &pending, 5, BTN_WEIGHT, &meds, 2024);
    let o = settle(d, 5, None, "T");
    assert_eq!(o.pending, PendingChange::Expect(PendingEntry::Weight));
    assert_eq!(commit(&mut pending, 5, o, true).as_deref(), Some("Enter weight value (kg), for example: 78.4"));
    assert_eq!(pending.get(5), Some(PendingEntry::Weight));
    assert!(matches!(decide(&cfg, &pending, 5, BTN_SHOW_MENU, &meds, 2024), Decision::Reply(Notice::Menu)));
    assert!(matches!(decide(&cfg, &pending, 5, " /help ", &meds, 2024), Decision::Reply(Notice::Help)));
}

#[test]
fn medication_commands_and_buttons() {
    let cfg = config(&[5]);
    let meds = vec!["Aspirin".to_string()];
    let pending = PendingState::new();
    let o = settle(decide(&cfg, &pending, 5, "/addmed  Vitamin   D", &meds, 2024), 5, None, "T");
    assert_eq!(o.reply.as_deref(), Some("Medication added: Vitamin   D"));
    let a = o.append.unwrap();
    assert_eq!((a.kind, a.line.as_str()), (RecordKind::MedicationNames, "Vitamin D"));
    let o = settle(decide(&cfg, &pending, 5, "/add_medication ASPIRIN", &meds, 2024), 5, None, "T");
    assert_eq!(o.reply.as_deref(), Some("Medication already exists: ASPIRIN"));
    assert!(o.append.is_none());
    assert!(matches!(decide(&cfg, &pending, 5, "/addmed", &meds, 2024), Decision::Reply(Notice::MedicationUsage)));
    let o = settle(decide(&cfg, &pending, 5, "\u{1F48A} aspirin", &meds, 2024), 5, None, "T");
    assert_eq!(o.reply.as_deref(), Some("Medication usage saved \u{2705} (aspirin)"));
    assert_eq!(o.append.unwrap().line, "T,5,\"aspirin\"");
    assert!(matches!(
        decide(&cfg, &pending, 5, "\u{1F48A} Ibuprofen", &meds, 2024),
        Decision::Reply(Notice::UnknownMedication)
    ));
}

#[test]
fn keyboard_rows() {
    let meds = vec!["A".to_string(), "B".to_string(), "C".to_string()];
    let rows = menu_keyboard(&meds);
    assert_eq!(rows.len(), 4);
    assert_eq!(rows[0], vec!["\u{1FA78} Glucose: Before meal".to_string(), "\u{1FA78} Glucose: After meal".to_string()]);
    assert_eq!(rows[1], vec!["\u{2696}\u{FE0F} Weight".to_string(), "\u{1F4CB} Show menu".to_string()]);
    assert_eq!(rows[2], vec!["\u{1F48A} A".to_string(), "\u{1F48A} B".to_string()]);
    assert_eq!(rows[3], vec!["\u{1F48A} C".to_string()]);
    assert_eq!(menu_keyboard(&Vec::new()).len(), 2);
}
