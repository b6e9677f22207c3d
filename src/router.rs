//! The command router: what each incoming text means for a chat, and what
//! is written, replied and remembered as a result.
use vstd::prelude::*;
use crate::datetime::{civil_text, current_year, now_text, resolve_instant};
use crate::decimal::{decimal_chars, decimal_of, parse_decimal_chars, Decimal, DecimalView};
use crate::entry::{
    glucose_payload_of, parse_glucose_payload, EntryError, GlucoseEntry, GlucoseEntryView,
    GlucoseTag,
};
use crate::medication::{listed, medication_exists, medication_to_add, name_to_add, string_views};
use crate::pending::{PendingEntry, PendingState};
use crate::record::{
    file_after, glucose_line, glucose_line_of, medication_line, medication_line_of, weight_line,
    weight_line_of, RecordKind,
};
use crate::text::{
    chars_of, collapse, same_chars, starts_with, string_of, strip_prefix, trim, trim_chars,
};
use std::collections::HashSet;

verus! {

broadcast use vstd::std_specs::hash::group_hash_axioms;

pub const BTN_GLUCOSE_BEFORE_MEAL: &'static str = "🩸 Glucose: Before meal";

pub const BTN_GLUCOSE_AFTER_MEAL: &'static str = "🩸 Glucose: After meal";

pub const BTN_WEIGHT: &'static str = "⚖️ Weight";

pub const BTN_SHOW_MENU: &'static str = "📋 Show menu";

/// What starts the label of a medication button.
pub const MED_BUTTON_PREFIX: &'static str = "💊 ";

/// The fixed replies.
#[derive(Clone, Copy, Debug, PartialEq, Eq, Structural)]
pub enum Notice {
    Help,
    Menu,
    Fallback,
    GlucoseUsage,
    MedicationUsage,
    UnknownMedication,
    MissingValue,
    InvalidValue,
    InvalidDateTime,
    WeightNotANumber,
    PromptGlucoseBefore,
    PromptGlucoseAfter,
    PromptWeight,
}

pub open spec fn notice_text(n: Notice) -> Seq<char> {
    match n {
        Notice::Help => HELP_TEXT@,
        Notice::Menu => MENU_TEXT@,
        Notice::Fallback => "Choose an action from menu. Type /menu to show buttons or /addmed <name>."@,
        Notice::GlucoseUsage => "Usage:\n/addgb <value> [MM/DD hh:mm] [@note]\n/addga <value> [MM/DD hh:mm] [@note]"@,
        Notice::MedicationUsage => "Usage: /addmed <medication name>"@,
        Notice::UnknownMedication => "Unknown medication. Use /addmed <name> first."@,
        Notice::MissingValue => "Missing glucose value"@,
        Notice::InvalidValue => "Invalid glucose value. Example: 5.8"@,
        Notice::InvalidDateTime => "Invalid date/time. Examples: 2/1 9:05, 02/01 09:05, 24/2/1 9:05, 2024/2/1 9:05"@,
        Notice::WeightNotANumber => "Could not parse number. Use format like 78.4 (dot or comma)."@,
        Notice::PromptGlucoseBefore => "Enter glucose: <value> [date time] [@note], e.g. 5.8 2/1 9:05 @before breakfast"@,
        Notice::PromptGlucoseAfter => "Enter glucose: <value> [date time] [@note], e.g. 7.2 2/1 11:00 @after lunch"@,
        Notice::PromptWeight => "Enter weight value (kg), for example: 78.4"@,
    }
}

pub const HELP_TEXT: &'static str = "Commands:\n/menu - show menu buttons\n/help - show this help\n/addmed <name> - add medication button\n/addgb <value> [date time] [@note] - add glucose before meal\n/addga <value> [date time] [@note] - add glucose after meal\n\nDate/time examples:\n- 2/1 9:05\n- 02/01 09:05\n- 24/2/1 9:05\n- 2024/2/1 9:05\nIf year is omitted, current year is used.\nNote example: @before breakfast\n\nWarning: data is stored as plain text CSV/TXT and is not encrypted by this bot.";

pub const MENU_TEXT: &'static str = "Diabetes diary menu:\n- Glucose before meal\n- Glucose after meal\n- Weight\n- Medications\nUse /addmed <name> to add medication button.\nUse /addgb or /addga for direct glucose entry with optional date/time.";

impl Notice {
    /// The text of the reply.
    pub fn text(self) -> (r: &'static str)
        ensures
            r@ == notice_text(self),
    {
        match self {
            Notice::Help => HELP_TEXT,
            Notice::Menu => MENU_TEXT,
            Notice::Fallback => "Choose an action from menu. Type /menu to show buttons or /addmed <name>.",
            Notice::GlucoseUsage => "Usage:\n/addgb <value> [MM/DD hh:mm] [@note]\n/addga <value> [MM/DD hh:mm] [@note]",
            Notice::MedicationUsage => "Usage: /addmed <medication name>",
            Notice::UnknownMedication => "Unknown medication. Use /addmed <name> first.",
            Notice::MissingValue => "Missing glucose value",
            Notice::InvalidValue => "Invalid glucose value. Example: 5.8",
            Notice::InvalidDateTime => "Invalid date/time. Examples: 2/1 9:05, 02/01 09:05, 24/2/1 9:05, 2024/2/1 9:05",
            Notice::WeightNotANumber => "Could not parse number. Use format like 78.4 (dot or comma).",
            Notice::PromptGlucoseBefore => "Enter glucose: <value> [date time] [@note], e.g. 5.8 2/1 9:05 @before breakfast",
            Notice::PromptGlucoseAfter => "Enter glucose: <value> [date time] [@note], e.g. 7.2 2/1 11:00 @after lunch",
            Notice::PromptWeight => "Enter weight value (kg), for example: 78.4",
        }
    }
}

/// The reply to a glucose payload that could not be read.
pub open spec fn entry_notice(e: EntryError) -> Notice {
    match e {
        EntryError::EmptyPayload => Notice::GlucoseUsage,
        EntryError::MissingValue => Notice::MissingValue,
        EntryError::NotANumber => Notice::InvalidValue,
        EntryError::InvalidDateTime => Notice::InvalidDateTime,
        EntryError::UnknownMedication => Notice::UnknownMedication,
    }
}

fn notice_for(e: EntryError) -> (r: Notice)
    ensures
        r == entry_notice(e),
{
    match e {
        EntryError::EmptyPayload => Notice::GlucoseUsage,
        EntryError::MissingValue => Notice::MissingValue,
        EntryError::NotANumber => Notice::InvalidValue,
        EntryError::InvalidDateTime => Notice::InvalidDateTime,
        EntryError::UnknownMedication => Notice::UnknownMedication,
    }
}

/// The prompt sent when a chat is asked for an entry.
pub open spec fn prompt_of(e: PendingEntry) -> Notice {
    match e {
        PendingEntry::Glucose(GlucoseTag::BeforeMeal) => Notice::PromptGlucoseBefore,
        PendingEntry::Glucose(GlucoseTag::AfterMeal) => Notice::PromptGlucoseAfter,
        PendingEntry::Weight => Notice::PromptWeight,
    }
}

/// What follows a command word: nothing for the bare word, the trimmed
/// rest after the word and a space.
pub open spec fn command_rest(t: Seq<char>, cmd: Seq<char>) -> Option<Seq<char>> {
    if t == cmd {
        Some(Seq::empty())
    } else if starts_with(t, cmd.push(' ')) {
        Some(trim(t.skip(cmd.len() + 1 as int)))
    } else {
        None
    }
}

/// A direct glucose command and its payload.
pub open spec fn glucose_command(t: Seq<char>) -> Option<(GlucoseTag, Seq<char>)> {
    if command_rest(t, "/addgb"@) is Some {
        Some((GlucoseTag::BeforeMeal, command_rest(t, "/addgb"@)->0))
    } else if command_rest(t, "/add_glucose_before"@) is Some {
        Some((GlucoseTag::BeforeMeal, command_rest(t, "/add_glucose_before"@)->0))
    } else if command_rest(t, "/addga"@) is Some {
        Some((GlucoseTag::AfterMeal, command_rest(t, "/addga"@)->0))
    } else if command_rest(t, "/add_glucose_after"@) is Some {
        Some((GlucoseTag::AfterMeal, command_rest(t, "/add_glucose_after"@)->0))
    } else {
        None
    }
}

/// A command that adds a medication, and the name it gives.
pub open spec fn medication_command(t: Seq<char>) -> Option<Seq<char>> {
    if command_rest(t, "/addmed"@) is Some {
        command_rest(t, "/addmed"@)
    } else {
        command_rest(t, "/add_medication"@)
    }
}

fn command_rest_chars(t: &Vec<char>, cmd: &str) -> (r: Option<Vec<char>>)
    ensures
        match r {
            Some(v) => command_rest(t@, cmd@) == Some(v@),
            None => command_rest(t@, cmd@) is None,
        },
{
    let word = chars_of(cmd);
    if same_chars(t, &word) {
        return Some(Vec::new());
    }
    let mut spaced = chars_of(cmd);
    spaced.push(' ');
    match strip_prefix(t, &spaced) {
        Some(rest) => Some(trim_chars(&rest)),
        None => None,
    }
}

fn glucose_command_chars(t: &Vec<char>) -> (r: Option<(GlucoseTag, Vec<char>)>)
    ensures
        match r {
            Some(p) => glucose_command(t@) == Some((p.0, p.1@)),
            None => glucose_command(t@) is None,
        },
{
    match command_rest_chars(t, "/addgb") {
        Some(p) => return Some((GlucoseTag::BeforeMeal, p)),
        None => {},
    }
    match command_rest_chars(t, "/add_glucose_before") {
        Some(p) => return Some((GlucoseTag::BeforeMeal, p)),
        None => {},
    }
    match command_rest_chars(t, "/addga") {
        Some(p) => return Some((GlucoseTag::AfterMeal, p)),
        None => {},
    }
    match command_rest_chars(t, "/add_glucose_after") {
        Some(p) => Some((GlucoseTag::AfterMeal, p)),
        None => None,
    }
}

fn medication_command_chars(t: &Vec<char>) -> (r: Option<Vec<char>>)
    ensures
        match r {
            Some(p) => medication_command(t@) == Some(p@),
            None => medication_command(t@) is None,
        },
{
    match command_rest_chars(t, "/addmed") {
        Some(p) => Some(p),
        None => command_rest_chars(t, "/add_medication"),
    }
}

/// What an incoming text means.
pub enum Decision {
    /// The chat is not allowed: nothing is replied, written or remembered.
    Ignore,
    /// A fixed reply and nothing else.
    Reply(Notice),
    /// The chat is asked for an entry, which is remembered.
    Arm(PendingEntry),
    /// `name` is added to the registry; `shown` is the name as typed.
    AddMedication { name: String, shown: String },
    /// The name is registered already.
    MedicationExists { shown: String },
    /// One use of a registered medication is logged.
    LogMedication { name: String },
    /// A glucose reading is logged; one that answers a prompt also ends it.
    LogGlucose { tag: GlucoseTag, entry: GlucoseEntry, from_pending: bool },
    /// A weight is logged and the prompt for it ends.
    LogWeight { value: Decimal },
}

pub ghost enum DecisionView {
    Ignore,
    Reply(Notice),
    Arm(PendingEntry),
    AddMedication { name: Seq<char>, shown: Seq<char> },
    MedicationExists { shown: Seq<char> },
    LogMedication { name: Seq<char> },
    LogGlucose { tag: GlucoseTag, entry: GlucoseEntryView, from_pending: bool },
    LogWeight { value: DecimalView },
}

impl View for Decision {
    type V = DecisionView;

    open spec fn view(&self) -> DecisionView {
        match self {
            Decision::Ignore => DecisionView::Ignore,
            Decision::Reply(n) => DecisionView::Reply(*n),
            Decision::Arm(e) => DecisionView::Arm(*e),
            Decision::AddMedication { name, shown } => DecisionView::AddMedication {
                name: name@,
                shown: shown@,
            },
            Decision::MedicationExists { shown } => DecisionView::MedicationExists { shown: shown@ },
            Decision::LogMedication { name } => DecisionView::LogMedication { name: name@ },
            Decision::LogGlucose { tag, entry, from_pending } => DecisionView::LogGlucose {
                tag: *tag,
                entry: entry@,
                from_pending: *from_pending,
            },
            Decision::LogWeight { value } => DecisionView::LogWeight { value: value@ },
        }
    }
}

/// What a text from a chat means: `allowed` tells whether the chat may use
/// the diary, `pending` what it was asked for, `meds` its registry, and
/// `current_year` the year of a date given as `month/day`.
///
/// Direct commands come first and leave the pending entry alone; a bare
/// reply is read as the pending entry asks.
pub open spec fn decision_of(
    allowed: bool,
    pending: Option<PendingEntry>,
    text: Seq<char>,
    meds: Seq<Seq<char>>,
    current_year: i32,
) -> DecisionView {
    let t = trim(text);
    let prefix = MED_BUTTON_PREFIX@;
    if !allowed {
        DecisionView::Ignore
    } else if t == "/help"@ {
        DecisionView::Reply(Notice::Help)
    } else if glucose_command(t) is Some {
        let found = glucose_command(t)->0;
        let tag = found.0;
        let payload = found.1;
        if payload.len() == 0 {
            DecisionView::Reply(Notice::GlucoseUsage)
        } else {
            match glucose_payload_of(payload, current_year) {
                Ok(e) => DecisionView::LogGlucose { tag, entry: e, from_pending: false },
                Err(x) => DecisionView::Reply(entry_notice(x)),
            }
        }
    } else if medication_command(t) is Some {
        let shown = medication_command(t)->0;
        if shown.len() == 0 {
            DecisionView::Reply(Notice::MedicationUsage)
        } else {
            match name_to_add(meds, shown) {
                Some(n) => DecisionView::AddMedication { name: n, shown },
                None => DecisionView::MedicationExists { shown },
            }
        }
    } else if t == "/start"@ || t == "/menu"@ || t == BTN_SHOW_MENU@ {
        DecisionView::Reply(Notice::Menu)
    } else if t == BTN_GLUCOSE_BEFORE_MEAL@ {
        DecisionView::Arm(PendingEntry::Glucose(GlucoseTag::BeforeMeal))
    } else if t == BTN_GLUCOSE_AFTER_MEAL@ {
        DecisionView::Arm(PendingEntry::Glucose(GlucoseTag::AfterMeal))
    } else if t == BTN_WEIGHT@ {
        DecisionView::Arm(PendingEntry::Weight)
    } else if starts_with(t, prefix) {
        let name = trim(t.skip(prefix.len() as int));
        if listed(meds, collapse(name)) {
            DecisionView::LogMedication { name }
        } else {
            DecisionView::Reply(Notice::UnknownMedication)
        }
    } else {
        match pending {
            Some(PendingEntry::Glucose(tag)) => match glucose_payload_of(t, current_year) {
                Ok(e) => DecisionView::LogGlucose { tag, entry: e, from_pending: true },
                Err(x) => DecisionView::Reply(entry_notice(x)),
            },
            Some(PendingEntry::Weight) => match decimal_of(t) {
                Some(v) => DecisionView::LogWeight { value: v },
                None => DecisionView::Reply(Notice::WeightNotANumber),
            },
            None => DecisionView::Reply(Notice::Fallback),
        }
    }
}

/// The entry that `chat` is expected to send, if any.
pub open spec fn pending_of(m: Map<i64, PendingEntry>, chat: i64) -> Option<PendingEntry> {
    if m.contains_key(chat) {
        Some(m[chat])
    } else {
        None
    }
}

/// The chats that may use the diary.
pub struct Config {
    pub allowed_chat_ids: HashSet<i64>,
}

fn text_is(t: &Vec<char>, s: &str) -> (r: bool)
    ensures
        r == (t@ == s@),
{
    let w = chars_of(s);
    same_chars(t, &w)
}

/// Decides what a text from `chat` means; nothing is changed.
pub fn decide(
    config: &Config,
    pending: &PendingState,
    chat: i64,
    text: &str,
    meds: &Vec<String>,
    current_year: i32,
) -> (r: Decision)
    ensures
        r@ == decision_of(
            config.allowed_chat_ids@.contains(chat),
            pending_of(pending@, chat),
            text@,
            string_views(meds@),
            current_year,
        ),
        r matches Decision::LogGlucose { entry, .. } ==> (entry.when matches Some(c) ==> c.wf()),
{
    if !config.allowed_chat_ids.contains(&chat) {
        return Decision::Ignore;
    }
    let raw = chars_of(text);
    let t = trim_chars(&raw);
    if text_is(&t, "/help") {
        return Decision::Reply(Notice::Help);
    }
    match glucose_command_chars(&t) {
        Some((tag, payload)) => {
            if payload.len() == 0 {
                return Decision::Reply(Notice::GlucoseUsage);
            }
            return match parse_glucose_payload(&payload, current_year) {
                Ok(e) => Decision::LogGlucose { tag, entry: e, from_pending: false },
                Err(x) => Decision::Reply(notice_for(x)),
            };
        },
        None => {},
    }
    match medication_command_chars(&t) {
        Some(shown) => {
            if shown.len() == 0 {
                return Decision::Reply(Notice::MedicationUsage);
            }
            let shown_text = string_of(&shown);
            return match medication_to_add(meds, shown_text.as_str()) {
                Some(n) => Decision::AddMedication { name: n, shown: shown_text },
                None => Decision::MedicationExists { shown: shown_text },
            };
        },
        None => {},
    }
    if text_is(&t, "/start") || text_is(&t, "/menu") || text_is(&t, BTN_SHOW_MENU) {
        return Decision::Reply(Notice::Menu);
    }
    if text_is(&t, BTN_GLUCOSE_BEFORE_MEAL) {
        return Decision::Arm(PendingEntry::Glucose(GlucoseTag::BeforeMeal));
    }
    if text_is(&t, BTN_GLUCOSE_AFTER_MEAL) {
        return Decision::Arm(PendingEntry::Glucose(GlucoseTag::AfterMeal));
    }
    if text_is(&t, BTN_WEIGHT) {
        return Decision::Arm(PendingEntry::Weight);
    }
    let prefix = chars_of(MED_BUTTON_PREFIX);
    match strip_prefix(&t, &prefix) {
        Some(rest) => {
            let name = trim_chars(&rest);
            let name_text = string_of(&name);
            if medication_exists(meds, name_text.as_str()) {
                return Decision::LogMedication { name: name_text };
            } else {
                return Decision::Reply(Notice::UnknownMedication);
            }
        },
        None => {},
    }
    match pending.get(chat) {
        Some(PendingEntry::Glucose(tag)) => match parse_glucose_payload(&t, current_year) {
            Ok(e) => Decision::LogGlucose { tag, entry: e, from_pending: true },
            Err(x) => Decision::Reply(notice_for(x)),
        },
        Some(PendingEntry::Weight) => match parse_decimal_chars(&t) {
            Some(v) => Decision::LogWeight { value: v },
            None => Decision::Reply(Notice::WeightNotANumber),
        },
        None => Decision::Reply(Notice::Fallback),
    }
}

/// How a chat's pending entry changes once the reply goes out.
#[derive(Clone, Copy, Debug, PartialEq, Eq, Structural)]
pub enum PendingChange {
    Keep,
    Expect(PendingEntry),
    Clear,
}

/// One line to append to one of the chat's files.
pub struct Append {
    pub kind: RecordKind,
    pub line: String,
}

/// Everything that handling one text does: the reply, the line to append,
/// and the change of the pending entry. When the append fails, neither the
/// reply nor the change happens.
pub struct Outcome {
    pub reply: Option<String>,
    pub append: Option<Append>,
    pub pending: PendingChange,
}

pub ghost struct OutcomeView {
    pub reply: Option<Seq<char>>,
    pub append: Option<(RecordKind, Seq<char>)>,
    pub pending: PendingChange,
}

pub open spec fn opt_string(o: Option<String>) -> Option<Seq<char>> {
    match o {
        Some(s) => Some(s@),
        None => None,
    }
}

impl View for Outcome {
    type V = OutcomeView;

    open spec fn view(&self) -> OutcomeView {
        OutcomeView {
            reply: opt_string(self.reply),
            append: match self.append {
                Some(a) => Some((a.kind, a.line@)),
                None => None,
            },
            pending: self.pending,
        }
    }
}

pub open spec fn only_reply(n: Notice) -> OutcomeView {
    OutcomeView { reply: Some(notice_text(n)), append: None, pending: PendingChange::Keep }
}

/// What a decision does for `chat`: `stamp` is the instant found for a
/// reading's civil time, if any, and `now` the time of records that give none.
pub open spec fn outcome_of(
    d: DecisionView,
    chat: i64,
    stamp: Option<Seq<char>>,
    now: Seq<char>,
) -> OutcomeView {
    match d {
        DecisionView::Ignore => OutcomeView {
            reply: None,
            append: None,
            pending: PendingChange::Keep,
        },
        DecisionView::Reply(n) => only_reply(n),
        DecisionView::Arm(e) => OutcomeView {
            reply: Some(notice_text(prompt_of(e))),
            append: None,
            pending: PendingChange::Expect(e),
        },
        DecisionView::AddMedication { name, shown } => OutcomeView {
            reply: Some("Medication added: "@ + shown),
            append: Some((RecordKind::MedicationNames, name)),
            pending: PendingChange::Keep,
        },
        DecisionView::MedicationExists { shown } => OutcomeView {
            reply: Some("Medication already exists: "@ + shown),
            append: None,
            pending: PendingChange::Keep,
        },
        DecisionView::LogMedication { name } => OutcomeView {
            reply: Some("Medication usage saved \u{2705} ("@ + name + ")"@),
            append: Some((RecordKind::MedicationLog, medication_line_of(now, chat, name))),
            pending: PendingChange::Keep,
        },
        DecisionView::LogGlucose { tag, entry, from_pending } => {
            if entry.when is Some && stamp is None {
                only_reply(Notice::InvalidDateTime)
            } else {
                let ts = if entry.when is Some {
                    stamp->0
                } else {
                    now
                };
                let note = match entry.note {
                    Some(n) => n,
                    None => Seq::empty(),
                };
                OutcomeView {
                    reply: Some(
                        if from_pending {
                            "Saved \u{2705}"@
                        } else {
                            "Glucose entry saved \u{2705}"@
                        },
                    ),
                    append: Some(
                        (
                            RecordKind::Glucose,
                            glucose_line_of(ts, chat, tag, decimal_chars(entry.value), note),
                        ),
                    ),
                    pending: if from_pending {
                        PendingChange::Clear
                    } else {
                        PendingChange::Keep
                    },
                }
            }
        },
        DecisionView::LogWeight { value } => OutcomeView {
            reply: Some("Saved \u{2705}"@),
            append: Some((RecordKind::Weight, weight_line_of(now, chat, decimal_chars(value)))),
            pending: PendingChange::Clear,
        },
    }
}

fn joined(head: &str, tail: &str) -> (r: String)
    ensures
        r@ == head@ + tail@,
{
    let mut s = String::from_str(head);
    s.append(tail);
    s
}

fn reply_only(n: Notice) -> (r: Outcome)
    ensures
        r@ == only_reply(n),
{
    Outcome { reply: Some(String::from_str(n.text())), append: None, pending: PendingChange::Keep }
}

/// Turns a decision into its outcome for `chat`, given the instant found for
/// a reading's civil time and the current time.
pub fn settle(d: Decision, chat: i64, stamp: Option<String>, now: &str) -> (r: Outcome)
    ensures
        r@ == outcome_of(d@, chat, opt_string(stamp), now@),
{
    match d {
        Decision::Ignore => Outcome { reply: None, append: None, pending: PendingChange::Keep },
        Decision::Reply(n) => reply_only(n),
        Decision::Arm(e) => {
            let n = match e {
                PendingEntry::Glucose(GlucoseTag::BeforeMeal) => Notice::PromptGlucoseBefore,
                PendingEntry::Glucose(GlucoseTag::AfterMeal) => Notice::PromptGlucoseAfter,
                PendingEntry::Weight => Notice::PromptWeight,
            };
            Outcome {
                reply: Some(String::from_str(n.text())),
                append: None,
                pending: PendingChange::Expect(e),
            }
        },
        Decision::AddMedication { name, shown } => Outcome {
            reply: Some(joined("Medication added: ", shown.as_str())),
            append: Some(Append { kind: RecordKind::MedicationNames, line: name }),
            pending: PendingChange::Keep,
        },
        Decision::MedicationExists { shown } => Outcome {
            reply: Some(joined("Medication already exists: ", shown.as_str())),
            append: None,
            pending: PendingChange::Keep,
        },
        Decision::LogMedication { name } => {
            let mut reply = joined("Medication usage saved \u{2705} (", name.as_str());
            reply.append(")");
            let chars = chars_of(name.as_str());
            Outcome {
                reply: Some(reply),
                append: Some(
                    Append { kind: RecordKind::MedicationLog, line: medication_line(now, chat, &chars) },
                ),
                pending: PendingChange::Keep,
            }
        },
        Decision::LogGlucose { tag, entry, from_pending } => {
            let ts: String = match (&entry.when, stamp) {
                (Some(_), None) => return reply_only(Notice::InvalidDateTime),
                (Some(_), Some(s)) => s,
                (None, _) => String::from_str(now),
            };
            let empty: Vec<char> = Vec::new();
            let note = match &entry.note {
                Some(n) => n,
                None => &empty,
            };
            let line = glucose_line(ts.as_str(), chat, tag, &entry.value, note);
            let reply = if from_pending {
                String::from_str("Saved \u{2705}")
            } else {
                String::from_str("Glucose entry saved \u{2705}")
            };
            Outcome {
                reply: Some(reply),
                append: Some(Append { kind: RecordKind::Glucose, line }),
                pending: if from_pending {
                    PendingChange::Clear
                } else {
                    PendingChange::Keep
                },
            }
        },
        Decision::LogWeight { value } => Outcome {
            reply: Some(String::from_str("Saved \u{2705}")),
            append: Some(Append { kind: RecordKind::Weight, line: weight_line(now, chat, &value) }),
            pending: PendingChange::Clear,
        },
    }
}

/// The stamp belongs to the decision: there is one only for a reading that
/// gave a civil time, and its text starts with that civil time.
pub open spec fn stamp_fits(d: DecisionView, stamp: Option<Seq<char>>) -> bool {
    match stamp {
        None => true,
        Some(t) => match d {
            DecisionView::LogGlucose { entry, .. } => match entry.when {
                Some(c) => 0 <= c.year <= 9999 ==> t.len() >= 19 && t.take(19) == civil_text(c),
                None => false,
            },
            _ => false,
        },
    }
}

/// Handles a text from `chat` with the machine's clock and time zone: the
/// year of `month/day` dates is the current one, a reading's civil time
/// becomes the instant that `resolve_instant` picks, and records without a
/// time carry the current instant.
pub fn handle(
    config: &Config,
    pending: &PendingState,
    chat: i64,
    text: &str,
    meds: &Vec<String>,
) -> (r: Outcome)
    ensures
        exists|year: i32, stamp: Option<Seq<char>>, now: Seq<char>|
            r@ == #[trigger] outcome_of(
                decision_of(
                    config.allowed_chat_ids@.contains(chat),
                    pending_of(pending@, chat),
                    text@,
                    string_views(meds@),
                    year,
                ),
                chat,
                stamp,
                now,
            ) && stamp_fits(
                decision_of(
                    config.allowed_chat_ids@.contains(chat),
                    pending_of(pending@, chat),
                    text@,
                    string_views(meds@),
                    year,
                ),
                stamp,
            ) && now.len() >= 19,
{
    let year = current_year();
    let d = decide(config, pending, chat, text, meds, year);
    let stamp = match &d {
        Decision::LogGlucose { entry, .. } => match &entry.when {
            Some(c) => resolve_instant(c),
            None => None,
        },
        _ => None,
    };
    let ghost dv = d@;
    let now = now_text();
    let ghost s = opt_string(stamp);
    assert(stamp_fits(dv, s));
    let r = settle(d, chat, stamp, now.as_str());
    assert(r@ == outcome_of(dv, chat, s, now@));
    r
}

/// The pending entries after a change for `chat`.
pub open spec fn pending_after(
    m: Map<i64, PendingEntry>,
    chat: i64,
    c: PendingChange,
) -> Map<i64, PendingEntry> {
    match c {
        PendingChange::Keep => m,
        PendingChange::Expect(e) => m.insert(chat, e),
        PendingChange::Clear => m.remove(chat),
    }
}

/// Finishes handling once the append, if any, has been tried: when it
/// failed, nothing is replied and the pending entry stays; otherwise the
/// pending entry changes and the reply is returned.
pub fn commit(pending: &mut PendingState, chat: i64, outcome: Outcome, stored: bool) -> (r: Option<
    String,
>)
    ensures
        outcome.append is Some && !stored ==> r is None && final(pending)@ == old(pending)@,
        !(outcome.append is Some && !stored) ==> opt_string(r) == opt_string(outcome.reply)
            && final(pending)@ == pending_after(old(pending)@, chat, outcome.pending),
{
    if outcome.append.is_some() && !stored {
        return None;
    }
    match outcome.pending {
        PendingChange::Keep => {},
        PendingChange::Expect(e) => pending.set(chat, e),
        PendingChange::Clear => pending.clear(chat),
    }
    outcome.reply
}

pub open spec fn button_of(m: Seq<char>) -> Seq<char> {
    MED_BUTTON_PREFIX@ + m
}

pub open spec fn min(a: int, b: int) -> int {
    if a < b {
        a
    } else {
        b
    }
}

/// The medication buttons of row `k`: the names at `2k` and `2k + 1`.
pub open spec fn medication_row(meds: Seq<Seq<char>>, k: int) -> Seq<Seq<char>> {
    meds.subrange(2 * k, min(2 * k + 2, meds.len() as int)).map_values(|m: Seq<char>| button_of(m))
}

/// The keyboard: two fixed rows, then the medications two per row.
pub open spec fn keyboard_of(meds: Seq<Seq<char>>) -> Seq<Seq<Seq<char>>> {
    seq![
        seq![BTN_GLUCOSE_BEFORE_MEAL@, BTN_GLUCOSE_AFTER_MEAL@],
        seq![BTN_WEIGHT@, BTN_SHOW_MENU@],
    ] + Seq::new(((meds.len() + 1) / 2) as nat, |k: int| medication_row(meds, k))
}

pub open spec fn rows_view(rows: Seq<Vec<String>>) -> Seq<Seq<Seq<char>>> {
    rows.map_values(|row: Vec<String>| string_views(row@))
}

/// The labels of the keyboard sent with every reply, row by row.
pub fn menu_keyboard(meds: &Vec<String>) -> (r: Vec<Vec<String>>)
    ensures
        rows_view(r@) == keyboard_of(string_views(meds@)),
{
    let ghost ms = string_views(meds@);
    let mut rows: Vec<Vec<String>> = Vec::new();
    let mut first: Vec<String> = Vec::new();
    first.push(String::from_str(BTN_GLUCOSE_BEFORE_MEAL));
    first.push(String::from_str(BTN_GLUCOSE_AFTER_MEAL));
    let mut second: Vec<String> = Vec::new();
    second.push(String::from_str(BTN_WEIGHT));
    second.push(String::from_str(BTN_SHOW_MENU));
    assert(string_views(first@) =~= seq![BTN_GLUCOSE_BEFORE_MEAL@, BTN_GLUCOSE_AFTER_MEAL@]);
    assert(string_views(second@) =~= seq![BTN_WEIGHT@, BTN_SHOW_MENU@]);
    rows.push(first);
    rows.push(second);
    let ghost fixed = rows_view(rows@);
    let n = meds.len();
    let count = n / 2 + n % 2;
    let mut k: usize = 0;
    assert(rows_view(rows@) =~= fixed + Seq::new(0, |j: int| medication_row(ms, j)));
    while k < count
        invariant
            n == meds@.len() == ms.len(),
            count == (n + 1) / 2,
            ms == string_views(meds@),
            k <= count,
            fixed == seq![
                seq![BTN_GLUCOSE_BEFORE_MEAL@, BTN_GLUCOSE_AFTER_MEAL@],
                seq![BTN_WEIGHT@, BTN_SHOW_MENU@],
            ],
            rows_view(rows@) == fixed + Seq::new(k as nat, |j: int| medication_row(ms, j)),
        decreases count - k,
    {
        let i = 2 * k;
        let mut row: Vec<String> = Vec::new();
        row.push(joined(MED_BUTTON_PREFIX, meds[i].as_str()));
        if i + 1 < n {
            row.push(joined(MED_BUTTON_PREFIX, meds[i + 1].as_str()));
        }
        assert(string_views(row@) =~= medication_row(ms, k as int));
        let ghost before = rows@;
        let ghost row_view = string_views(row@);
        rows.push(row);
        assert(rows_view(rows@) =~= rows_view(before).push(row_view));
        assert(Seq::new((k + 1) as nat, |j: int| medication_row(ms, j)) =~= Seq::new(
            k as nat,
            |j: int| medication_row(ms, j),
        ).push(medication_row(ms, k as int)));
        k += 1;
        assert(rows_view(rows@) =~= fixed + Seq::new(k as nat, |j: int| medication_row(ms, j)));
    }
    rows
}

/// A chat outside the allow-list gets no reply, and nothing is written or
/// remembered for it, whatever it sends.
pub proof fn lemma_unlisted_chat_is_ignored(
    m: Map<i64, PendingEntry>,
    chat: i64,
    text: Seq<char>,
    meds: Seq<Seq<char>>,
    current_year: i32,
    stamp: Option<Seq<char>>,
    now: Seq<char>,
)
    ensures
        outcome_of(decision_of(false, pending_of(m, chat), text, meds, current_year), chat, stamp, now)
            == (OutcomeView { reply: None, append: None, pending: PendingChange::Keep }),
        pending_after(m, chat, PendingChange::Keep) == m,
{
}

/// While a weight is pending, a bare reply that is no number leaves the
/// weight pending and writes nothing, so the user may retry; a number
/// appends one weight record to the weight file, after the header when the
/// file is new, and ends the prompt. A bare reply is a text that no command
/// or button claims.
pub proof fn lemma_weight_reply(
    m: Map<i64, PendingEntry>,
    chat: i64,
    text: Seq<char>,
    meds: Seq<Seq<char>>,
    current_year: i32,
    stamp: Option<Seq<char>>,
    now: Seq<char>,
    file: Option<Seq<Seq<char>>>,
)
    requires
        pending_of(m, chat) == Some(PendingEntry::Weight),
        decision_of(true, None, text, meds, current_year) == DecisionView::Reply(Notice::Fallback),
    ensures
        ({
            let o = outcome_of(
                decision_of(true, pending_of(m, chat), text, meds, current_year),
                chat,
                stamp,
                now,
            );
            let line = weight_line_of(now, chat, decimal_chars(decimal_of(trim(text))->0));
            &&& decimal_of(trim(text)) is None ==> o.append is None && pending_after(
                m,
                chat,
                o.pending,
            ) == m && pending_of(pending_after(m, chat, o.pending), chat) == Some(
                PendingEntry::Weight,
            )
            &&& decimal_of(trim(text)) is Some ==> o.append == Some((RecordKind::Weight, line))
                && pending_of(pending_after(m, chat, o.pending), chat) is None && file_after(
                file,
                RecordKind::Weight,
                line,
            ) == match file {
                None => seq!["timestamp,chat_id,value_kg"@, line],
                Some(ls) => ls.push(line),
            }
        }),
{
    let line = weight_line_of(now, chat, decimal_chars(decimal_of(trim(text))->0));
    match file {
        None => {},
        Some(ls) => {
            assert(ls + seq![line] =~= ls.push(line));
        },
    }
}

} // verus!
