//! Tolerant date and time input: `2/1 9:05`, `02/01 09:05`, `24/2/1 9:05`,
//! `2024-2-1 9:05` all name the same local civil time.
use vstd::prelude::*;
use crate::decimal::{all_digit_chars, all_digits};
use crate::entry::EntryError;
use crate::text::{chars_of, digit_char, replace_char, replace_chars, slice, split_chars, split_on, views, words, words_of};

verus! {

#[verifier::external_type_specification]
#[verifier::external_body]
pub struct ExNaiveDate(chrono::NaiveDate);

/// The earliest year that a calendar date can have.
pub const MIN_YEAR: i32 = -262143;

/// The latest year that a calendar date can have.
pub const MAX_YEAR: i32 = 262142;

pub open spec fn is_leap_year(y: int) -> bool {
    (y % 4 == 0 && y % 100 != 0) || y % 400 == 0
}

pub open spec fn days_in_month(y: int, m: int) -> int {
    if m == 2 {
        if is_leap_year(y) {
            29
        } else {
            28
        }
    } else if m == 4 || m == 6 || m == 9 || m == 11 {
        30
    } else {
        31
    }
}

/// A day of the proleptic Gregorian calendar within the supported years.
pub open spec fn is_calendar_date(y: int, m: int, d: int) -> bool {
    MIN_YEAR <= y <= MAX_YEAR && 1 <= m <= 12 && 1 <= d <= days_in_month(y, m)
}

/// `NaiveDate::from_ymd_opt` gives a date exactly for an existing calendar
/// day whose year lies in `MIN_YEAR..=MAX_YEAR` (chrono's `MIN_YEAR` and
/// `MAX_YEAR`, checked in `from_mdf`, with days per month from `Mdf`).
pub assume_specification[ chrono::NaiveDate::from_ymd_opt ](year: i32, month: u32, day: u32) -> (r:
    Option<chrono::NaiveDate>)
    ensures
        r is Some <==> is_calendar_date(year as int, month as int, day as int),
;

/// A local civil date and time to the minute.
#[derive(Clone, Copy, Debug, PartialEq, Eq, Structural)]
pub struct CivilDateTime {
    pub year: i32,
    pub month: u32,
    pub day: u32,
    pub hour: u32,
    pub minute: u32,
}

impl CivilDateTime {
    /// An existing calendar day and a time of day.
    pub open spec fn wf(&self) -> bool {
        is_calendar_date(self.year as int, self.month as int, self.day as int) && self.hour < 24
            && self.minute < 60
    }
}

/// The digits of a number after an optional `+`, as integer parsing reads them.
pub open spec fn number_digits(s: Seq<char>) -> Seq<char> {
    if s.len() > 0 && s[0] == '+' {
        s.skip(1)
    } else {
        s
    }
}

pub open spec fn digits_value(s: Seq<char>) -> nat
    decreases s.len(),
{
    if s.len() == 0 {
        0
    } else {
        digits_value(s.drop_last()) * 10 + (s.last() as u32 - 48) as nat
    }
}

/// The unsigned number that the text spells, if it is at most `max`.
pub open spec fn number_of(s: Seq<char>, max: nat) -> Option<nat> {
    let d = number_digits(s);
    if d.len() > 0 && all_digits(d) && digits_value(d) <= max {
        Some(digits_value(d))
    } else {
        None
    }
}

pub open spec fn u32_max() -> nat {
    0xFFFF_FFFF
}

pub open spec fn i32_max() -> nat {
    0x7FFF_FFFF
}

/// A two-digit year belongs to the current century.
pub open spec fn full_year(raw: nat) -> int {
    if raw <= 99 {
        2000 + raw as int
    } else {
        raw as int
    }
}

/// A date or time token with `-` and `.` read as `/`.
pub open spec fn slashed(tok: Seq<char>) -> Seq<char> {
    replace_char(replace_char(tok, '-', '/'), '.', '/')
}

/// The civil date and time that a date token (`month/day` in
/// `current_year`, or `year/month/day`) and a time token (`hour:minute`) name.
pub open spec fn datetime_of_pair(date: Seq<char>, time: Seq<char>, current_year: i32) -> Option<
    CivilDateTime,
> {
    let dp = split_on(slashed(date), '/');
    let tp = split_on(slashed(time), ':');
    let hour = number_of(tp[0], u32_max());
    let minute = number_of(tp[1], u32_max());
    let two = dp.len() == 2;
    let year_raw = number_of(dp[0], i32_max());
    let month = if two {
        number_of(dp[0], u32_max())
    } else {
        number_of(dp[1], u32_max())
    };
    let day = if two {
        number_of(dp[1], u32_max())
    } else {
        number_of(dp[2], u32_max())
    };
    let year: int = if two {
        current_year as int
    } else {
        full_year(year_raw->0)
    };
    if (dp.len() == 2 || dp.len() == 3) && tp.len() == 2 && hour is Some && minute is Some
        && hour->0 <= 23 && minute->0 <= 59 && (two || year_raw is Some) && month is Some
        && day is Some && is_calendar_date(year, month->0 as int, day->0 as int) {
        Some(
            CivilDateTime {
                year: year as i32,
                month: month->0 as u32,
                day: day->0 as u32,
                hour: hour->0 as u32,
                minute: minute->0 as u32,
            },
        )
    } else {
        None
    }
}

/// The civil date and time that the text names: exactly two words, a date
/// and a time.
pub open spec fn datetime_of(text: Seq<char>, current_year: i32) -> Option<CivilDateTime> {
    let toks = words(text);
    if toks.len() == 2 {
        datetime_of_pair(toks[0], toks[1], current_year)
    } else {
        None
    }
}

proof fn lemma_digits_monotone(d: Seq<char>, i: int, j: int)
    requires
        all_digits(d),
        0 <= i <= j <= d.len(),
    ensures
        digits_value(d.take(i)) <= digits_value(d.take(j)),
    decreases j - i,
{
    if i < j {
        assert(d.take(j).drop_last() =~= d.take(j - 1));
        assert(d.take(j).last() == d[j - 1]);
        lemma_digits_monotone(d, i, j - 1);
    }
}

/// Reads an unsigned number of at most `max`.
pub fn number_from(s: &Vec<char>, max: u64) -> (r: Option<u64>)
    requires
        max <= 0xFFFF_FFFF,
    ensures
        match r {
            Some(v) => number_of(s@, max as nat) == Some(v as nat),
            None => number_of(s@, max as nat) is None,
        },
{
    let d = if s.len() > 0 && s[0] == '+' {
        slice(s, 1, s.len())
    } else {
        slice(s, 0, s.len())
    };
    assert(d@ =~= number_digits(s@));
    if d.len() == 0 || !all_digit_chars(&d) {
        return None;
    }
    let mut v: u64 = 0;
    let mut i: usize = 0;
    assert(d@.take(0) =~= Seq::<char>::empty());
    while i < d.len()
        invariant
            all_digits(d@),
            d@ == number_digits(s@),
            d@.len() > 0,
            i <= d@.len(),
            max <= 0xFFFF_FFFF,
            v as nat == digits_value(d@.take(i as int)),
            v <= max,
        decreases d@.len() - i,
    {
        assert(d@.take(i + 1).drop_last() =~= d@.take(i as int));
        assert(d@.take(i + 1).last() == d@[i as int]);
        assert(crate::decimal::is_digit(d@[i as int]));
        let nv = v * 10 + (d[i] as u32 - 48u32) as u64;
        assert(nv as nat == digits_value(d@.take(i + 1)));
        i += 1;
        if nv > max {
            proof {
                lemma_digits_monotone(d@, i as int, d@.len() as int);
                assert(d@.take(d@.len() as int) =~= d@);
            }
            return None;
        }
        v = nv;
    }
    assert(d@.take(d@.len() as int) =~= d@);
    Some(v)
}

/// Reads a date token and a time token.
pub fn civil_from_pair(date: &Vec<char>, time: &Vec<char>, current_year: i32) -> (r: Option<
    CivilDateTime,
>)
    ensures
        r == datetime_of_pair(date@, time@, current_year),
        r matches Some(c) ==> c.wf(),
{
    let d1 = replace_chars(date, '-', '/');
    let d2 = replace_chars(&d1, '.', '/');
    let t1 = replace_chars(time, '-', '/');
    let t2 = replace_chars(&t1, '.', '/');
    let dp = split_chars(&d2, '/');
    let tp = split_chars(&t2, ':');
    if !(dp.len() == 2 || dp.len() == 3) || tp.len() != 2 {
        return None;
    }
    assert(views(tp@)[0] == tp@[0]@);
    assert(views(tp@)[1] == tp@[1]@);
    assert(views(dp@)[0] == dp@[0]@);
    assert(views(dp@)[1] == dp@[1]@);
    let hour = match number_from(&tp[0], 0xFFFF_FFFF) {
        Some(h) => h,
        None => return None,
    };
    let minute = match number_from(&tp[1], 0xFFFF_FFFF) {
        Some(m) => m,
        None => return None,
    };
    if hour > 23 || minute > 59 {
        return None;
    }
    let year: i32;
    let month: u64;
    let day: u64;
    if dp.len() == 2 {
        year = current_year;
        month = match number_from(&dp[0], 0xFFFF_FFFF) {
            Some(m) => m,
            None => return None,
        };
        day = match number_from(&dp[1], 0xFFFF_FFFF) {
            Some(d) => d,
            None => return None,
        };
    } else {
        assert(views(dp@)[2] == dp@[2]@);
        let raw = match number_from(&dp[0], 0x7FFF_FFFF) {
            Some(y) => y,
            None => return None,
        };
        year = if raw <= 99 {
            2000 + raw as i32
        } else {
            raw as i32
        };
        month = match number_from(&dp[1], 0xFFFF_FFFF) {
            Some(m) => m,
            None => return None,
        };
        day = match number_from(&dp[2], 0xFFFF_FFFF) {
            Some(d) => d,
            None => return None,
        };
    }
    if chrono::NaiveDate::from_ymd_opt(year, month as u32, day as u32).is_none() {
        return None;
    }
    Some(
        CivilDateTime {
            year,
            month: month as u32,
            day: day as u32,
            hour: hour as u32,
            minute: minute as u32,
        },
    )
}

/// Reads the civil date and time that the text names, the year defaulting
/// to `current_year`.
pub fn parse_datetime(text: &str, current_year: i32) -> (r: Result<CivilDateTime, EntryError>)
    ensures
        match datetime_of(text@, current_year) {
            Some(c) => r == Ok::<CivilDateTime, EntryError>(c),
            None => r == Err::<CivilDateTime, EntryError>(EntryError::InvalidDateTime),
        },
{
    let chars = chars_of(text);
    let toks = words_of(&chars);
    if toks.len() != 2 {
        return Err(EntryError::InvalidDateTime);
    }
    assert(views(toks@)[0] == toks@[0]@);
    assert(views(toks@)[1] == toks@[1]@);
    match civil_from_pair(&toks[0], &toks[1], current_year) {
        Some(c) => Ok(c),
        None => Err(EntryError::InvalidDateTime),
    }
}

/// Two decimal digits of a number below one hundred.
pub open spec fn two_digits(n: int) -> Seq<char> {
    seq![digit_char((n / 10) as nat), digit_char((n % 10) as nat)]
}

/// `YYYY-MM-DDTHH:MM:00`, the civil time as RFC 3339 text begins for a
/// year from 0 to 9999.
pub open spec fn civil_text(c: CivilDateTime) -> Seq<char> {
    two_digits(c.year as int / 100) + two_digits(c.year as int % 100) + seq!['-'] + two_digits(c.month as int)
        + seq!['-'] + two_digits(c.day as int) + seq!['T'] + two_digits(c.hour as int) + seq![':']
        + two_digits(c.minute as int) + seq![':', '0', '0']
}

/// An instant: its RFC 3339 text in the machine's time zone and its seconds
/// since the Unix epoch.
pub struct LocalInstant {
    pub text: String,
    pub utc_seconds: i64,
}

/// The instants at which a local civil time occurs on this machine's clock.
pub enum LocalInstants {
    /// The civil time occurs once.
    Single(LocalInstant),
    /// The clock was set back and the civil time occurs twice.
    Ambiguous(LocalInstant, LocalInstant),
    /// The clock skipped over the civil time.
    Missing,
}

/// The instant's text starts with the civil time `prefix`.
pub open spec fn shows(i: LocalInstant, prefix: Seq<char>) -> bool {
    i.text@.len() >= 19 && i.text@.take(19) == prefix
}

pub open spec fn all_show(found: LocalInstants, prefix: Seq<char>) -> bool {
    match found {
        LocalInstants::Single(a) => shows(a, prefix),
        LocalInstants::Ambiguous(a, b) => shows(a, prefix) && shows(b, prefix),
        LocalInstants::Missing => true,
    }
}

/// Relies on chrono: `NaiveDate::from_ymd_opt` and `and_hms_opt` build the
/// civil time (they succeed for a well-formed one), `Local`'s
/// `TimeZone::from_local_datetime` finds the instants at which it occurs in
/// the machine's time zone, each keeping the civil time as its local time,
/// and `DateTime::to_rfc3339` and `timestamp` give each instant's text and
/// UTC seconds. The text begins `YYYY-MM-DDTHH:MM:SS` with the local time
/// for years 0 to 9999 (`write_rfc3339`). Which instants exist depends on
/// the time zone, so nothing more is promised.
#[verifier::external_body]
fn local_instants(c: &CivilDateTime) -> (r: LocalInstants)
    requires
        c.wf(),
    ensures
        0 <= c.year <= 9999 ==> all_show(r, civil_text(*c)),
{
    let naive = match chrono::NaiveDate::from_ymd_opt(c.year, c.month, c.day) {
        Some(d) => d.and_hms_opt(c.hour, c.minute, 0),
        None => None,
    };
    let Some(naive) = naive else { return LocalInstants::Missing };
    match chrono::TimeZone::from_local_datetime(&chrono::Local, &naive) {
        chrono::LocalResult::Single(t) => LocalInstants::Single(LocalInstant { text: t.to_rfc3339(), utc_seconds: t.timestamp() }),
        chrono::LocalResult::Ambiguous(a, b) => LocalInstants::Ambiguous(
            LocalInstant { text: a.to_rfc3339(), utc_seconds: a.timestamp() },
            LocalInstant { text: b.to_rfc3339(), utc_seconds: b.timestamp() },
        ),
        chrono::LocalResult::None => LocalInstants::Missing,
    }
}

/// Relies on `chrono::Local::now` and `Datelike::year`: the current year on
/// this machine's clock.
#[verifier::external_body]
pub(crate) fn current_year() -> i32 {
    chrono::Datelike::year(&chrono::Local::now())
}

/// Relies on `chrono::Utc::now` and `DateTime::to_rfc3339`: the current
/// instant as RFC 3339 text, which holds at least the 19 characters of the
/// date and time.
#[verifier::external_body]
pub(crate) fn now_text() -> (r: String)
    ensures
        r@.len() >= 19,
{
    chrono::Utc::now().to_rfc3339()
}

/// The instant chosen for a civil time: the only one, the earlier of two
/// when the clock was set back, none when the clock skipped it.
pub fn pick_instant(found: LocalInstants) -> (r: Option<String>)
    ensures
        match found {
            LocalInstants::Single(a) => r == Some(a.text),
            LocalInstants::Ambiguous(a, b) => r == Some(
                if a.utc_seconds <= b.utc_seconds {
                    a.text
                } else {
                    b.text
                },
            ),
            LocalInstants::Missing => r is None,
        },
{
    match found {
        LocalInstants::Single(a) => Some(a.text),
        LocalInstants::Ambiguous(a, b) => {
            if a.utc_seconds <= b.utc_seconds {
                Some(a.text)
            } else {
                Some(b.text)
            }
        },
        LocalInstants::Missing => None,
    }
}

/// The instant of a civil time in the machine's time zone, as RFC 3339 text
/// that starts with the civil time; `None` when the clock skipped it.
pub fn resolve_instant(c: &CivilDateTime) -> (r: Option<String>)
    requires
        c.wf(),
    ensures
        r matches Some(t) ==> (0 <= c.year <= 9999 ==> t@.len() >= 19 && t@.take(19) == civil_text(
            *c,
        )),
{
    let found = local_instants(c);
    pick_instant(found)
}

/// Reads free date and time text with the machine's clock and time zone:
/// the year defaults to the current one, and the civil time becomes the
/// instant that `resolve_instant` picks, whose text starts with it.
pub fn parse_flexible_datetime(text: &str) -> (r: Result<String, EntryError>)
    ensures
        r matches Ok(t) ==> exists|y: i32|
            #[trigger] datetime_of(text@, y) matches Some(c) && (0 <= c.year <= 9999 ==> t@.take(19)
                == civil_text(c)),
        (forall|y: i32| datetime_of(text@, y) is None) ==> r == Err::<String, EntryError>(
            EntryError::InvalidDateTime,
        ),
{
    let year = current_year();
    match parse_datetime(text, year) {
        Ok(c) => match resolve_instant(&c) {
            Some(t) => {
                assert(datetime_of(text@, year) == Some(c));
                Ok(t)
            },
            None => Err(EntryError::InvalidDateTime),
        },
        Err(e) => Err(e),
    }
}

} // verus!
