//! The per-chat medication registry: normalized names, unique up to ASCII
//! case, in the order they were added.
use vstd::prelude::*;
use crate::text::{
    chars_of, collapse, collapse_chars, lemma_collapse_idempotent, eq_ignore_case, eq_ignore_case_chars, split_chars,
    split_on, string_of, views,
};

verus! {

pub open spec fn string_views(v: Seq<String>) -> Seq<Seq<char>> {
    v.map_values(|s: String| s@)
}

/// Some listed name equals `name` up to ASCII case.
pub open spec fn listed(meds: Seq<Seq<char>>, name: Seq<char>) -> bool {
    exists|i: int| 0 <= i < meds.len() && eq_ignore_case(#[trigger] meds[i], name)
}

/// The registry that a sequence of stored lines holds: each line
/// normalized, blank lines and repeated names skipped.
pub open spec fn registry_of(lines: Seq<Seq<char>>) -> Seq<Seq<char>>
    decreases lines.len(),
{
    if lines.len() == 0 {
        Seq::empty()
    } else {
        let acc = registry_of(lines.drop_last());
        let n = collapse(lines.last());
        if n.len() == 0 || listed(acc, n) {
            acc
        } else {
            acc.push(n)
        }
    }
}

/// The registry that the stored medication list holds.
pub open spec fn medications_in(content: Seq<char>) -> Seq<Seq<char>> {
    registry_of(split_on(content, '\n'))
}

/// The name to store when `name` is added: its normalized form, unless that
/// is empty or already listed.
pub open spec fn name_to_add(meds: Seq<Seq<char>>, name: Seq<char>) -> Option<Seq<char>> {
    let n = collapse(name);
    if n.len() == 0 || listed(meds, n) {
        None
    } else {
        Some(n)
    }
}

/// A medication name with whitespace runs collapsed to one space.
pub fn normalize_medication_name(name: &str) -> (r: String)
    ensures
        r@ == collapse(name@),
{
    let chars = chars_of(name);
    string_of(&collapse_chars(&chars))
}

fn listed_chars(meds: &Vec<String>, name: &Vec<char>) -> (r: bool)
    ensures
        r == listed(string_views(meds@), name@),
{
    let mut i: usize = 0;
    while i < meds.len()
        invariant
            i <= meds@.len(),
            forall|k: int| 0 <= k < i ==> !eq_ignore_case(#[trigger] meds@[k]@, name@),
        decreases meds@.len() - i,
    {
        let existing = chars_of(meds[i].as_str());
        if eq_ignore_case_chars(&existing, name) {
            assert(string_views(meds@)[i as int] == meds@[i as int]@);
            return true;
        }
        i += 1;
    }
    assert forall|k: int| 0 <= k < meds@.len() implies !eq_ignore_case(
        #[trigger] string_views(meds@)[k],
        name@,
    ) by {
        assert(string_views(meds@)[k] == meds@[k]@);
    }
    false
}

/// Whether the registry lists `name`, normalized and compared up to ASCII case.
pub fn medication_exists(meds: &Vec<String>, name: &str) -> (r: bool)
    ensures
        r == listed(string_views(meds@), collapse(name@)),
{
    let chars = chars_of(name);
    let normalized = collapse_chars(&chars);
    listed_chars(meds, &normalized)
}

/// The name to append to the registry when a user adds `name`; `None` when
/// it is blank or already listed, so that nothing is added.
pub fn medication_to_add(meds: &Vec<String>, name: &str) -> (r: Option<String>)
    ensures
        match r {
            Some(s) => name_to_add(string_views(meds@), name@) == Some(s@),
            None => name_to_add(string_views(meds@), name@) is None,
        },
{
    let chars = chars_of(name);
    let normalized = collapse_chars(&chars);
    if normalized.len() == 0 || listed_chars(meds, &normalized) {
        None
    } else {
        Some(string_of(&normalized))
    }
}

/// The registry that the stored medication list holds, one name per line.
pub fn medication_list(content: &str) -> (r: Vec<String>)
    ensures
        string_views(r@) == medications_in(content@),
{
    let chars = chars_of(content);
    let lines = split_chars(&chars, '\n');
    let mut acc: Vec<String> = Vec::new();
    let mut i: usize = 0;
    assert(views(lines@).take(0) =~= Seq::<Seq<char>>::empty());
    assert(string_views(acc@) =~= Seq::<Seq<char>>::empty());
    while i < lines.len()
        invariant
            i <= lines@.len(),
            string_views(acc@) == registry_of(views(lines@).take(i as int)),
        decreases lines@.len() - i,
    {
        let ghost before = views(lines@).take(i as int);
        assert(views(lines@).take(i + 1).drop_last() =~= before);
        assert(views(lines@).take(i + 1).last() == lines@[i as int]@);
        let name = collapse_chars(&lines[i]);
        if name.len() > 0 && !listed_chars(&acc, &name) {
            let s = string_of(&name);
            acc.push(s);
            assert(string_views(acc@) =~= registry_of(before).push(name@));
        }
        i += 1;
    }
    assert(views(lines@).take(lines@.len() as int) =~= views(lines@));
    acc
}

proof fn lemma_eq_ignore_case_link(a: Seq<char>, b: Seq<char>, c: Seq<char>)
    requires
        eq_ignore_case(a, b),
        eq_ignore_case(c, b),
    ensures
        eq_ignore_case(a, c),
{
    assert forall|i: int| 0 <= i < a.len() implies crate::text::folded(#[trigger] a[i])
        == crate::text::folded(c[i]) by {
        assert(crate::text::folded(a[i]) == crate::text::folded(b[i]));
        assert(crate::text::folded(c[i]) == crate::text::folded(b[i]));
    }
}

/// Once a name has been added, the registry lists it under any spelling
/// that differs only in ASCII case or in whitespace, and adding such a
/// spelling again adds nothing.
pub proof fn lemma_added_name_is_listed(lines: Seq<Seq<char>>, added: Seq<char>, query: Seq<char>)
    requires
        name_to_add(registry_of(lines), added) is Some,
        eq_ignore_case(collapse(query), collapse(added)),
    ensures
        listed(registry_of(lines.push(collapse(added))), collapse(query)),
        name_to_add(registry_of(lines.push(collapse(added))), query) is None,
{
    let n = collapse(added);
    let q = collapse(query);
    let lines2 = lines.push(n);
    assert(lines2.drop_last() =~= lines);
    let acc = registry_of(lines);
    assert(collapse(collapse(added)) == n) by {
        lemma_collapse_idempotent(added);
    }
    assert(registry_of(lines2) == acc.push(n));
    let reg = acc.push(n);
    let k = acc.len() as int;
    assert(reg[k] == n);
    assert forall|i: int| 0 <= i < n.len() implies crate::text::folded(#[trigger] n[i])
        == crate::text::folded(q[i]) by {
        assert(crate::text::folded(q[i]) == crate::text::folded(n[i]));
    }
    assert(eq_ignore_case(reg[k], q));
}

} // verus!
