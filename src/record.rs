//! Append-only record files: one per chat and record kind, a header line
//! written before the first record, one line per record.
use vstd::prelude::*;
use crate::decimal::{decimal_chars, Decimal};
use crate::entry::{tag_text, GlucoseTag};
use crate::text::{chars_of, int_text, push_int_text, push_str, string_of};

verus! {

/// The files kept for each chat.
#[derive(Clone, Copy, Debug, PartialEq, Eq, Structural)]
pub enum RecordKind {
    Glucose,
    Weight,
    MedicationLog,
    /// The registered medication names, one per line, without a header.
    MedicationNames,
}

pub open spec fn header_of(kind: RecordKind) -> Option<Seq<char>> {
    match kind {
        RecordKind::Glucose => Some("timestamp,chat_id,tag,value_mmol_l,note"@),
        RecordKind::Weight => Some("timestamp,chat_id,value_kg"@),
        RecordKind::MedicationLog => Some("timestamp,chat_id,medication"@),
        RecordKind::MedicationNames => None,
    }
}

pub open spec fn file_name_of(kind: RecordKind) -> Seq<char> {
    match kind {
        RecordKind::Glucose => "glucose.csv"@,
        RecordKind::Weight => "weight.csv"@,
        RecordKind::MedicationLog => "medication_log.csv"@,
        RecordKind::MedicationNames => "medications.txt"@,
    }
}

impl RecordKind {
    /// The header line that opens a new file of this kind, if any.
    pub fn header(self) -> (r: Option<&'static str>)
        ensures
            match r {
                Some(h) => header_of(self) == Some(h@),
                None => header_of(self) is None,
            },
    {
        match self {
            RecordKind::Glucose => Some("timestamp,chat_id,tag,value_mmol_l,note"),
            RecordKind::Weight => Some("timestamp,chat_id,value_kg"),
            RecordKind::MedicationLog => Some("timestamp,chat_id,medication"),
            RecordKind::MedicationNames => None,
        }
    }

    /// The name of the file of this kind inside a chat's directory.
    pub fn file_name(self) -> (r: &'static str)
        ensures
            r@ == file_name_of(self),
    {
        match self {
            RecordKind::Glucose => "glucose.csv",
            RecordKind::Weight => "weight.csv",
            RecordKind::MedicationLog => "medication_log.csv",
            RecordKind::MedicationNames => "medications.txt",
        }
    }
}

/// The lines that one append writes: the header first when the file is new.
pub open spec fn appended_lines(kind: RecordKind, file_exists: bool, line: Seq<char>) -> Seq<
    Seq<char>,
> {
    if !file_exists && header_of(kind) is Some {
        seq![header_of(kind)->0, line]
    } else {
        seq![line]
    }
}

pub open spec fn string_seq(v: Seq<String>) -> Seq<Seq<char>> {
    v.map_values(|s: String| s@)
}

/// The lines to write for one record; existing lines are never touched.
pub fn lines_to_append(kind: RecordKind, file_exists: bool, line: String) -> (r: Vec<String>)
    ensures
        string_seq(r@) == appended_lines(kind, file_exists, line@),
{
    let mut out: Vec<String> = Vec::new();
    if !file_exists {
        match kind.header() {
            Some(h) => out.push(String::from_str(h)),
            None => {},
        }
    }
    out.push(line);
    assert(string_seq(out@) =~= appended_lines(kind, file_exists, line@));
    out
}

/// A file's lines after one append; `None` is a file that does not exist.
pub open spec fn file_after(file: Option<Seq<Seq<char>>>, kind: RecordKind, line: Seq<char>) -> Seq<
    Seq<char>,
> {
    match file {
        None => appended_lines(kind, false, line),
        Some(ls) => ls + appended_lines(kind, true, line),
    }
}

/// A file's lines after the records are appended in order to a chat that
/// had none.
pub open spec fn file_from_records(kind: RecordKind, records: Seq<Seq<char>>) -> Option<
    Seq<Seq<char>>,
>
    decreases records.len(),
{
    if records.len() == 0 {
        None
    } else {
        Some(file_after(file_from_records(kind, records.drop_last()), kind, records.last()))
    }
}

/// Appending records to a fresh store gives exactly one header line
/// followed by the records in the order they were appended.
pub proof fn lemma_one_header_then_records(kind: RecordKind, records: Seq<Seq<char>>)
    requires
        records.len() > 0,
        header_of(kind) is Some,
    ensures
        file_from_records(kind, records) == Some(seq![header_of(kind)->0] + records),
    decreases records.len(),
{
    let h = header_of(kind)->0;
    let prev = file_from_records(kind, records.drop_last());
    assert(file_from_records(kind, records) == Some(file_after(prev, kind, records.last())));
    if records.len() == 1 {
        assert(records.drop_last().len() == 0);
        assert(prev is None);
        assert(seq![h, records[0]] =~= seq![h] + records);
    } else {
        lemma_one_header_then_records(kind, records.drop_last());
        assert(appended_lines(kind, true, records.last()) == seq![records.last()]);
        assert(seq![h] + records.drop_last() + seq![records.last()] =~= seq![h] + records);
    }
}

/// A text field between quotes, each quote inside doubled.
pub open spec fn quoted_body(s: Seq<char>) -> Seq<char>
    decreases s.len(),
{
    if s.len() == 0 {
        Seq::empty()
    } else if s.last() == '"' {
        quoted_body(s.drop_last()) + seq!['"', '"']
    } else {
        quoted_body(s.drop_last()).push(s.last())
    }
}

pub open spec fn quoted(s: Seq<char>) -> Seq<char> {
    seq!['"'] + quoted_body(s) + seq!['"']
}

/// Appends a text field in quotes, each quote inside doubled.
pub fn push_quoted(out: &mut Vec<char>, s: &Vec<char>)
    ensures
        final(out)@ == old(out)@ + quoted(s@),
{
    out.push('"');
    let ghost start = out@;
    let mut i: usize = 0;
    while i < s.len()
        invariant
            i <= s@.len(),
            out@ == start + quoted_body(s@.take(i as int)),
        decreases s@.len() - i,
    {
        assert(s@.take(i + 1).drop_last() =~= s@.take(i as int));
        if s[i] == '"' {
            out.push('"');
            out.push('"');
        } else {
            out.push(s[i]);
        }
        i += 1;
        assert(out@ =~= start + quoted_body(s@.take(i as int)));
    }
    assert(s@.take(s@.len() as int) =~= s@);
    out.push('"');
    assert(final(out)@ =~= old(out)@ + quoted(s@));
}

pub open spec fn glucose_line_of(
    ts: Seq<char>,
    chat: i64,
    tag: GlucoseTag,
    value: Seq<char>,
    note: Seq<char>,
) -> Seq<char> {
    ts + seq![','] + int_text(chat as int) + seq![','] + tag_text(tag) + seq![','] + value + seq![
        ',',
    ] + quoted(note)
}

pub open spec fn weight_line_of(ts: Seq<char>, chat: i64, value: Seq<char>) -> Seq<char> {
    ts + seq![','] + int_text(chat as int) + seq![','] + value
}

pub open spec fn medication_line_of(ts: Seq<char>, chat: i64, name: Seq<char>) -> Seq<char> {
    ts + seq![','] + int_text(chat as int) + seq![','] + quoted(name)
}

/// `timestamp,chat_id,tag,value_mmol_l,note` with the note quoted.
pub fn glucose_line(ts: &str, chat: i64, tag: GlucoseTag, value: &Decimal, note: &Vec<char>) -> (r:
    String)
    ensures
        r@ == glucose_line_of(ts@, chat, tag, decimal_chars(value@), note@),
{
    let mut out = chars_of(ts);
    out.push(',');
    push_int_text(chat, &mut out);
    out.push(',');
    push_str(&mut out, tag.as_csv_tag());
    out.push(',');
    let mut v = value.to_chars();
    out.append(&mut v);
    out.push(',');
    push_quoted(&mut out, note);
    assert(out@ =~= glucose_line_of(ts@, chat, tag, decimal_chars(value@), note@));
    string_of(&out)
}

/// `timestamp,chat_id,value_kg`.
pub fn weight_line(ts: &str, chat: i64, value: &Decimal) -> (r: String)
    ensures
        r@ == weight_line_of(ts@, chat, decimal_chars(value@)),
{
    let mut out = chars_of(ts);
    out.push(',');
    push_int_text(chat, &mut out);
    out.push(',');
    let mut v = value.to_chars();
    out.append(&mut v);
    assert(out@ =~= weight_line_of(ts@, chat, decimal_chars(value@)));
    string_of(&out)
}

/// `timestamp,chat_id,medication` with the name quoted.
pub fn medication_line(ts: &str, chat: i64, name: &Vec<char>) -> (r: String)
    ensures
        r@ == medication_line_of(ts@, chat, name@),
{
    let mut out = chars_of(ts);
    out.push(',');
    push_int_text(chat, &mut out);
    out.push(',');
    push_quoted(&mut out, name);
    assert(out@ =~= medication_line_of(ts@, chat, name@));
    string_of(&out)
}

} // verus!
