//! Locale-tolerant decimal numbers: `,` and `.` both separate the fraction.
use vstd::prelude::*;
use crate::text::{
    chars_of, is_space, lemma_split_after_sep, lemma_split_without_sep, replace_char, replace_chars,
    slice, split_chars, split_on, string_of, trim, trim_chars, trim_end, trim_start, views,
};

verus! {

/// A decimal number kept as its digits, so that no precision is lost.
///
/// As parsed, the integer digits carry no leading zero and the fraction
/// digits no trailing zero; an empty integer part stands for zero.
pub struct Decimal {
    pub negative: bool,
    pub int_digits: Vec<char>,
    pub frac_digits: Vec<char>,
}

pub ghost struct DecimalView {
    pub negative: bool,
    pub int_digits: Seq<char>,
    pub frac_digits: Seq<char>,
}

impl View for Decimal {
    type V = DecimalView;

    open spec fn view(&self) -> DecimalView {
        DecimalView {
            negative: self.negative,
            int_digits: self.int_digits@,
            frac_digits: self.frac_digits@,
        }
    }
}

pub open spec fn is_digit(c: char) -> bool {
    48 <= c as u32 && c as u32 <= 57
}

pub open spec fn all_digits(s: Seq<char>) -> bool {
    forall|i: int| 0 <= i < s.len() ==> is_digit(#[trigger] s[i])
}

pub open spec fn strip_leading_zeros(s: Seq<char>) -> Seq<char>
    decreases s.len(),
{
    if s.len() > 0 && s[0] == '0' {
        strip_leading_zeros(s.skip(1))
    } else {
        s
    }
}

pub open spec fn strip_trailing_zeros(s: Seq<char>) -> Seq<char>
    decreases s.len(),
{
    if s.len() > 0 && s.last() == '0' {
        strip_trailing_zeros(s.drop_last())
    } else {
        s
    }
}

/// The text after an optional leading `+` or `-`.
pub open spec fn unsigned_part(t: Seq<char>) -> Seq<char> {
    if t.len() > 0 && (t[0] == '+' || t[0] == '-') {
        t.skip(1)
    } else {
        t
    }
}

/// The number written as `[+|-]digits[.digits]` with at least one digit.
pub open spec fn decimal_text(t: Seq<char>) -> Option<DecimalView> {
    let pieces = split_on(unsigned_part(t), '.');
    let whole = pieces[0];
    let frac = if pieces.len() == 2 {
        pieces[1]
    } else {
        Seq::empty()
    };
    if pieces.len() <= 2 && all_digits(whole) && all_digits(frac) && whole.len() + frac.len() > 0 {
        Some(
            DecimalView {
                negative: t.len() > 0 && t[0] == '-',
                int_digits: strip_leading_zeros(whole),
                frac_digits: strip_trailing_zeros(frac),
            },
        )
    } else {
        None
    }
}

/// What a user's number means: surrounding whitespace ignored, a decimal
/// comma read as a decimal point.
pub open spec fn decimal_of(s: Seq<char>) -> Option<DecimalView> {
    decimal_text(replace_char(trim(s), ',', '.'))
}

/// The shortest text of the number, as it is written to the records.
pub open spec fn decimal_chars(d: DecimalView) -> Seq<char> {
    (if d.negative {
        seq!['-']
    } else {
        Seq::empty()
    }) + (if d.int_digits.len() == 0 {
        seq!['0']
    } else {
        d.int_digits
    }) + (if d.frac_digits.len() == 0 {
        Seq::empty()
    } else {
        seq!['.'] + d.frac_digits
    })
}

pub fn all_digit_chars(v: &Vec<char>) -> (r: bool)
    ensures
        r == all_digits(v@),
{
    let mut i: usize = 0;
    while i < v.len()
        invariant
            i <= v@.len(),
            forall|k: int| 0 <= k < i ==> is_digit(#[trigger] v@[k]),
        decreases v@.len() - i,
    {
        let u = v[i] as u32;
        if !(48 <= u && u <= 57) {
            return false;
        }
        i += 1;
    }
    true
}

fn strip_leading_zero_chars(v: &Vec<char>) -> (r: Vec<char>)
    ensures
        r@ == strip_leading_zeros(v@),
{
    let n = v.len();
    let mut i: usize = 0;
    assert(v@.subrange(0, n as int) =~= v@);
    while i < n && v[i] == '0'
        invariant
            i <= n == v@.len(),
            strip_leading_zeros(v@.subrange(i as int, n as int)) == strip_leading_zeros(v@),
        decreases n - i,
    {
        assert(v@.subrange(i as int, n as int).skip(1) =~= v@.subrange(i + 1, n as int));
        i += 1;
    }
    slice(v, i, n)
}

fn strip_trailing_zero_chars(v: &Vec<char>) -> (r: Vec<char>)
    ensures
        r@ == strip_trailing_zeros(v@),
{
    let mut j: usize = v.len();
    assert(v@.take(j as int) =~= v@);
    while j > 0 && v[j - 1] == '0'
        invariant
            j <= v@.len(),
            strip_trailing_zeros(v@.take(j as int)) == strip_trailing_zeros(v@),
        decreases j,
    {
        assert(v@.take(j as int).drop_last() =~= v@.take(j - 1));
        j -= 1;
    }
    let r = slice(v, 0, j);
    assert(r@ =~= v@.take(j as int));
    r
}

/// Reads a number written with `.` as separator, after trimming.
fn decimal_from_chars(t: &Vec<char>) -> (r: Option<Decimal>)
    ensures
        match r {
            Some(d) => decimal_text(t@) == Some(d@),
            None => decimal_text(t@) is None,
        },
{
    let signed = t.len() > 0 && (t[0] == '+' || t[0] == '-');
    let negative = t.len() > 0 && t[0] == '-';
    let body = if signed {
        slice(t, 1, t.len())
    } else {
        slice(t, 0, t.len())
    };
    assert(body@ =~= unsigned_part(t@));
    let pieces = split_chars(&body, '.');
    proof {
        assert(views(pieces@)[0] == pieces@[0]@);
    }
    if pieces.len() > 2 {
        return None;
    }
    let whole = &pieces[0];
    let empty: Vec<char> = Vec::new();
    let frac = if pieces.len() == 2 {
        assert(views(pieces@)[1] == pieces@[1]@);
        &pieces[1]
    } else {
        &empty
    };
    if !all_digit_chars(whole) || !all_digit_chars(frac) || (whole.len() == 0 && frac.len() == 0) {
        return None;
    }
    let d = Decimal {
        negative,
        int_digits: strip_leading_zero_chars(whole),
        frac_digits: strip_trailing_zero_chars(frac),
    };
    Some(d)
}

/// Parses a user's number: trims whitespace and reads `,` as the decimal
/// separator, so `"5,8"` and `"5.8"` give the same value.
pub fn parse_decimal(input: &str) -> (r: Option<Decimal>)
    ensures
        match r {
            Some(d) => decimal_of(input@) == Some(d@),
            None => decimal_of(input@) is None,
        },
{
    let raw = chars_of(input);
    parse_decimal_chars(&raw)
}

/// `parse_decimal` on characters.
pub fn parse_decimal_chars(raw: &Vec<char>) -> (r: Option<Decimal>)
    ensures
        match r {
            Some(d) => decimal_of(raw@) == Some(d@),
            None => decimal_of(raw@) is None,
        },
{
    let trimmed = trim_chars(raw);
    let dotted = replace_chars(&trimmed, ',', '.');
    decimal_from_chars(&dotted)
}

impl Decimal {
    /// The shortest text of the number: `5.80` becomes `5.8`, `05` becomes `5`.
    pub fn to_chars(&self) -> (r: Vec<char>)
        ensures
            r@ == decimal_chars(self@),
    {
        let mut out: Vec<char> = Vec::new();
        if self.negative {
            out.push('-');
        }
        if self.int_digits.len() == 0 {
            out.push('0');
        } else {
            let mut i: usize = 0;
            let ghost start = out@;
            while i < self.int_digits.len()
                invariant
                    i <= self.int_digits@.len(),
                    out@ == start + self.int_digits@.take(i as int),
                decreases self.int_digits@.len() - i,
            {
                out.push(self.int_digits[i]);
                i += 1;
                assert(out@ =~= start + self.int_digits@.take(i as int));
            }
            assert(self.int_digits@.take(i as int) =~= self.int_digits@);
        }
        if self.frac_digits.len() > 0 {
            out.push('.');
            let mut i: usize = 0;
            let ghost start = out@;
            while i < self.frac_digits.len()
                invariant
                    i <= self.frac_digits@.len(),
                    out@ == start + self.frac_digits@.take(i as int),
                decreases self.frac_digits@.len() - i,
            {
                out.push(self.frac_digits[i]);
                i += 1;
                assert(out@ =~= start + self.frac_digits@.take(i as int));
            }
            assert(self.frac_digits@.take(i as int) =~= self.frac_digits@);
        }
        assert(out@ =~= decimal_chars(self@));
        out
    }

    /// The shortest text of the number.
    pub fn to_text(&self) -> (r: String)
        ensures
            r@ == decimal_chars(self@),
    {
        string_of(&self.to_chars())
    }
}

proof fn lemma_trim_start_replace(s: Seq<char>)
    ensures
        trim_start(replace_char(s, ',', '.')) == replace_char(trim_start(s), ',', '.'),
    decreases s.len(),
{
    let r = replace_char(s, ',', '.');
    if s.len() > 0 && is_space(s[0]) {
        assert(r.skip(1) =~= replace_char(s.skip(1), ',', '.'));
        lemma_trim_start_replace(s.skip(1));
    }
}

proof fn lemma_trim_end_replace(s: Seq<char>)
    ensures
        trim_end(replace_char(s, ',', '.')) == replace_char(trim_end(s), ',', '.'),
    decreases s.len(),
{
    let r = replace_char(s, ',', '.');
    if s.len() > 0 && is_space(s.last()) {
        assert(r.drop_last() =~= replace_char(s.drop_last(), ',', '.'));
        lemma_trim_end_replace(s.drop_last());
    }
}

/// Writing the decimal separator as a comma or as a point gives the same
/// number: the text with every `,` turned into `.` parses to the same value
/// as the text itself.
pub proof fn lemma_comma_and_point_agree(s: Seq<char>)
    ensures
        decimal_of(replace_char(s, ',', '.')) == decimal_of(s),
{
    lemma_trim_start_replace(s);
    lemma_trim_end_replace(trim_start(s));
    let t = trim(s);
    assert(replace_char(replace_char(t, ',', '.'), ',', '.') =~= replace_char(t, ',', '.'));
}

/// A number written `[sign]digits,digits`, with at least one digit, reads
/// as the same number written with a point, and its value is its own digits:
/// the sign, the integer digits without leading zeros and the fraction
/// digits without trailing zeros.
pub proof fn lemma_comma_decimal_value(sign: Seq<char>, whole: Seq<char>, frac: Seq<char>)
    requires
        sign == Seq::<char>::empty() || sign == seq!['-'] || sign == seq!['+'],
        all_digits(whole),
        all_digits(frac),
        whole.len() + frac.len() > 0,
    ensures
        decimal_of(sign + whole + seq![','] + frac) == decimal_of(sign + whole + seq!['.'] + frac),
        decimal_of(sign + whole + seq![','] + frac) == Some(
            DecimalView {
                negative: sign == seq!['-'],
                int_digits: strip_leading_zeros(whole),
                frac_digits: strip_trailing_zeros(frac),
            },
        ),
{
    let s = sign + whole + seq![','] + frac;
    let t = sign + whole + seq!['.'] + frac;
    assert forall|i: int| 0 <= i < s.len() implies !is_space(#[trigger] s[i]) && s[i] != '.' by {
        if i >= sign.len() && i < sign.len() + whole.len() {
            assert(s[i] == whole[i - sign.len()]);
            assert(is_digit(whole[i - sign.len()]));
        } else if i > sign.len() + whole.len() {
            assert(s[i] == frac[i - sign.len() - whole.len() - 1]);
            assert(is_digit(frac[i - sign.len() - whole.len() - 1]));
        }
    }
    assert(trim_start(s) == s);
    assert(trim_end(s) == s);
    assert(replace_char(s, ',', '.') =~= t) by {
        assert forall|i: int| 0 <= i < s.len() implies #[trigger] replace_char(s, ',', '.')[i]
            == t[i] by {
            if i >= sign.len() && i < sign.len() + whole.len() {
                assert(s[i] == whole[i - sign.len()] && t[i] == whole[i - sign.len()]);
                assert(is_digit(whole[i - sign.len()]));
            } else if i > sign.len() + whole.len() {
                let j = i - sign.len() - whole.len() - 1;
                assert(s[i] == frac[j] && t[i] == frac[j]);
                assert(is_digit(frac[j]));
            } else if i < sign.len() {
                assert(s[i] == sign[i] && t[i] == sign[i]);
            }
        }
    }
    lemma_comma_and_point_agree(s);
    assert(replace_char(t, ',', '.') =~= t) by {
        assert forall|i: int| 0 <= i < t.len() implies #[trigger] replace_char(t, ',', '.')[i]
            == t[i] by {
            if i >= sign.len() && i < sign.len() + whole.len() {
                assert(t[i] == whole[i - sign.len()]);
                assert(is_digit(whole[i - sign.len()]));
            } else if i > sign.len() + whole.len() {
                assert(t[i] == frac[i - sign.len() - whole.len() - 1]);
                assert(is_digit(frac[i - sign.len() - whole.len() - 1]));
            } else if i < sign.len() {
                assert(t[i] == sign[i]);
            }
        }
    }
    let body = whole + seq!['.'] + frac;
    assert(unsigned_part(t) =~= body) by {
        if sign.len() == 0 {
            assert(t =~= body);
            if whole.len() > 0 {
                assert(is_digit(whole[0]));
            }
        } else {
            assert(t.skip(1) =~= body);
        }
    }
    assert(t.len() > 0 && t[0] == '-' <==> sign == seq!['-']) by {
        if sign.len() == 0 && whole.len() > 0 {
            assert(t[0] == whole[0] && is_digit(whole[0]));
        }
        if sign.len() == 1 {
            assert(t[0] == sign[0]);
        }
    }
    assert forall|i: int| 0 <= i < frac.len() implies frac[i] != '.' by {
        assert(is_digit(frac[i]));
    }
    assert forall|i: int| 0 <= i < whole.len() implies whole[i] != '.' by {
        assert(is_digit(whole[i]));
    }
    lemma_split_without_sep(whole, '.');
    lemma_split_after_sep(whole, frac, '.');
    assert(whole.push('.') + frac =~= body);
    assert(split_on(body, '.') =~= seq![whole, frac]);
}

} // verus!
