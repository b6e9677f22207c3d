//! Entries that a user reports and the grammar of a glucose payload:
//! `<value> [date time] [@note]`.
use vstd::prelude::*;
use crate::datetime::{civil_from_pair, datetime_of_pair, CivilDateTime};
use crate::decimal::{decimal_of, parse_decimal_chars, Decimal, DecimalView};
use crate::text::{slice, trim, trim_chars, views, words, words_of};

verus! {

/// Why a user's entry could not be read.
#[derive(Clone, Copy, Debug, PartialEq, Eq, Structural)]
pub enum EntryError {
    /// A command that needs a payload came without one.
    EmptyPayload,
    /// The payload has no value before the note.
    MissingValue,
    /// The value is not a decimal number.
    NotANumber,
    /// The date and time are malformed or name no instant.
    InvalidDateTime,
    /// A medication button names no registered medication.
    UnknownMedication,
}

/// When a glucose reading was taken relative to a meal.
#[derive(Clone, Copy, Debug, PartialEq, Eq, Structural)]
pub enum GlucoseTag {
    BeforeMeal,
    AfterMeal,
}

pub open spec fn tag_text(t: GlucoseTag) -> Seq<char> {
    match t {
        GlucoseTag::BeforeMeal => "before_meal"@,
        GlucoseTag::AfterMeal => "after_meal"@,
    }
}

impl GlucoseTag {
    /// The tag as the glucose records write it.
    pub fn as_csv_tag(self) -> (r: &'static str)
        ensures
            r@ == tag_text(self),
    {
        match self {
            GlucoseTag::BeforeMeal => "before_meal",
            GlucoseTag::AfterMeal => "after_meal",
        }
    }
}

/// A glucose reading as the user typed it: the value, the civil time if one
/// was given, and the note if one was given.
pub struct GlucoseEntry {
    pub value: Decimal,
    pub when: Option<CivilDateTime>,
    pub note: Option<Vec<char>>,
}

pub ghost struct GlucoseEntryView {
    pub value: DecimalView,
    pub when: Option<CivilDateTime>,
    pub note: Option<Seq<char>>,
}

pub open spec fn opt_view(o: Option<Vec<char>>) -> Option<Seq<char>> {
    match o {
        Some(v) => Some(v@),
        None => None,
    }
}

impl View for GlucoseEntry {
    type V = GlucoseEntryView;

    open spec fn view(&self) -> GlucoseEntryView {
        GlucoseEntryView { value: self.value@, when: self.when, note: opt_view(self.note) }
    }
}

/// The position of the first `@`, or the length when there is none.
pub open spec fn at_index(s: Seq<char>) -> int
    decreases s.len(),
{
    if s.len() == 0 {
        0
    } else if s[0] == '@' {
        0
    } else {
        1 + at_index(s.skip(1))
    }
}

/// The text before the first `@`, trimmed, and the note after it: one
/// leading space dropped, and no note when nothing remains.
pub open spec fn note_split(s: Seq<char>) -> (Seq<char>, Option<Seq<char>>) {
    let k = at_index(s);
    if k < s.len() {
        let after = s.skip(k + 1);
        let note = if after.len() > 0 && after[0] == ' ' {
            after.skip(1)
        } else {
            after
        };
        (trim(s.take(k)), if note.len() == 0 {
            None
        } else {
            Some(note)
        })
    } else {
        (trim(s), None)
    }
}

/// What a glucose payload says, the year of a `month/day` date being
/// `current_year`.
pub open spec fn glucose_payload_of(payload: Seq<char>, current_year: i32) -> Result<
    GlucoseEntryView,
    EntryError,
> {
    let body = note_split(payload).0;
    let note = note_split(payload).1;
    let toks = words(body);
    if toks.len() == 0 {
        Err(EntryError::MissingValue)
    } else if decimal_of(toks[0]) is None {
        Err(EntryError::NotANumber)
    } else if toks.len() == 1 {
        Ok(GlucoseEntryView { value: decimal_of(toks[0])->0, when: None, note })
    } else if toks.len() == 3 && datetime_of_pair(toks[1], toks[2], current_year) is Some {
        Ok(
            GlucoseEntryView {
                value: decimal_of(toks[0])->0,
                when: datetime_of_pair(toks[1], toks[2], current_year),
                note,
            },
        )
    } else {
        Err(EntryError::InvalidDateTime)
    }
}

proof fn lemma_at_index_bounds(s: Seq<char>)
    ensures
        0 <= at_index(s) <= s.len(),
        at_index(s) < s.len() ==> s[at_index(s)] == '@',
    decreases s.len(),
{
    if s.len() > 0 && s[0] != '@' {
        lemma_at_index_bounds(s.skip(1));
    }
}

fn find_at(v: &Vec<char>) -> (r: usize)
    ensures
        r == at_index(v@),
{
    let n = v.len();
    let mut i: usize = 0;
    assert(v@.subrange(0, n as int) =~= v@);
    while i < n && v[i] != '@'
        invariant
            i <= n == v@.len(),
            at_index(v@) == i + at_index(v@.subrange(i as int, n as int)),
        decreases n - i,
    {
        assert(v@.subrange(i as int, n as int).skip(1) =~= v@.subrange(i + 1, n as int));
        i += 1;
    }
    i
}

/// Splits off the note that follows the first `@`.
pub fn split_note(v: &Vec<char>) -> (r: (Vec<char>, Option<Vec<char>>))
    ensures
        r.0@ == note_split(v@).0,
        opt_view(r.1) == note_split(v@).1,
{
    let k = find_at(v);
    proof {
        lemma_at_index_bounds(v@);
    }
    if k < v.len() {
        let start = if k + 1 < v.len() && v[k + 1] == ' ' {
            k + 2
        } else {
            k + 1
        };
        let note = slice(v, start, v.len());
        assert(note@ =~= note_split(v@).1.unwrap_or(Seq::empty()));
        let head = slice(v, 0, k);
        assert(head@ =~= v@.take(k as int));
        let before = trim_chars(&head);
        if note.len() == 0 {
            (before, None)
        } else {
            (before, Some(note))
        }
    } else {
        (trim_chars(v), None)
    }
}

/// Reads a glucose payload, `month/day` dates falling in `current_year`.
pub fn parse_glucose_payload(payload: &Vec<char>, current_year: i32) -> (r: Result<
    GlucoseEntry,
    EntryError,
>)
    ensures
        match r {
            Ok(e) => glucose_payload_of(payload@, current_year) == Ok::<
                GlucoseEntryView,
                EntryError,
            >(e@),
            Err(x) => glucose_payload_of(payload@, current_year) == Err::<
                GlucoseEntryView,
                EntryError,
            >(x),
        },
        r matches Ok(e) ==> (e.when matches Some(c) ==> c.wf()),
{
    let (body, note) = split_note(payload);
    let toks = words_of(&body);
    if toks.len() == 0 {
        return Err(EntryError::MissingValue);
    }
    assert(views(toks@)[0] == toks@[0]@);
    let value = match parse_decimal_chars(&toks[0]) {
        Some(d) => d,
        None => return Err(EntryError::NotANumber),
    };
    if toks.len() == 1 {
        return Ok(GlucoseEntry { value, when: None, note });
    }
    if toks.len() != 3 {
        return Err(EntryError::InvalidDateTime);
    }
    assert(views(toks@)[1] == toks@[1]@);
    assert(views(toks@)[2] == toks@[2]@);
    match civil_from_pair(&toks[1], &toks[2], current_year) {
        Some(c) => Ok(GlucoseEntry { value, when: Some(c), note }),
        None => Err(EntryError::InvalidDateTime),
    }
}

} // verus!
