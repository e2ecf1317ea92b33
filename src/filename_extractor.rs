use vstd::prelude::*;

use crate::digits::{chars_value, digit_chars, is_digit_char, read_chars_number};
use crate::paths::{chars_of, file_stem_of, path_stem};
use crate::timestamp::{Timestamp, is_valid_date};

verus! {

/// The textual shapes tried, in this order, to find a date in a file name.
#[derive(Clone, Copy, Debug, PartialEq, Eq, Structural)]
pub enum DatePattern {
    /// Capital letters, an optional `_`, eight digits, an optional `_` and more
    /// digits (`IMG_20240827_123456`).
    LettersUnderscore,
    /// The same with `-` as the separator (`IMG-20240827-123456`).
    LettersHyphen,
    /// Eight digits at the very start (`20240827_123456`).
    Leading,
    /// Capital letters, then `_` right before eight digits (`DSC_20240827`).
    Underscore,
    /// Four, two and two digits in a row, read as year, month, day.
    Groups,
}

pub open spec fn pattern_at(k: int) -> DatePattern {
    if k == 0 {
        DatePattern::LettersUnderscore
    } else if k == 1 {
        DatePattern::LettersHyphen
    } else if k == 2 {
        DatePattern::Leading
    } else if k == 3 {
        DatePattern::Underscore
    } else {
        DatePattern::Groups
    }
}

/// Eight digits start at `i`.
pub open spec fn run_at(s: Seq<char>, i: int) -> bool {
    digit_chars(s, i, 8)
}

pub open spec fn underscore_run_at(s: Seq<char>, i: int) -> bool {
    1 <= i && s[i - 1] == '_' && run_at(s, i)
}

/// `i` is the first place where eight digits start.
pub open spec fn first_run(s: Seq<char>, i: int) -> bool {
    run_at(s, i) && forall|j: int| 0 <= j < i ==> !#[trigger] run_at(s, j)
}

/// `i` is the first place where eight digits start right after a `_`.
pub open spec fn first_underscore_run(s: Seq<char>, i: int) -> bool {
    underscore_run_at(s, i) && forall|j: int| 0 <= j < i ==> !#[trigger] underscore_run_at(s, j)
}

/// Where the eight digits that a pattern captures start. In a search for the
/// leftmost match, a prefix of capital letters and separators cannot reach
/// over a digit, so the first three shapes and the last all capture the first
/// run of eight digits; the leading one only when that run starts the name.
pub open spec fn captures(p: DatePattern, s: Seq<char>, i: int) -> bool {
    match p {
        DatePattern::Leading => i == 0 && run_at(s, 0),
        DatePattern::Underscore => first_underscore_run(s, i),
        _ => first_run(s, i),
    }
}

pub open spec fn has_capture(p: DatePattern, s: Seq<char>) -> bool {
    exists|i: int| captures(p, s, i)
}

/// The date spelled `YYYYMMDD` by the run at `i`, at noon UTC.
pub open spec fn date_at(s: Seq<char>, i: int) -> Option<Timestamp> {
    let year = chars_value(s, i, 4);
    let month = chars_value(s, i + 4, 2);
    let day = chars_value(s, i + 6, 2);
    if is_valid_date(year as int, month as int, day as int) {
        Some(
            Timestamp {
                year: year as u32,
                month: month as u32,
                day: day as u32,
                hour: 12,
                minute: 0,
                second: 0,
            },
        )
    } else {
        None
    }
}

/// What pattern `p` recovers from `s`.
pub open spec fn pattern_date(p: DatePattern, s: Seq<char>) -> Option<Timestamp> {
    if has_capture(p, s) {
        date_at(s, choose|i: int| captures(p, s, i))
    } else {
        None
    }
}

/// The first date recovered by the patterns from the `k`-th on.
pub open spec fn dates_from(s: Seq<char>, k: int) -> Option<Timestamp>
    decreases 5 - k,
{
    if k >= 5 {
        None
    } else if pattern_date(pattern_at(k), s) is Some {
        pattern_date(pattern_at(k), s)
    } else {
        dates_from(s, k + 1)
    }
}

/// The date that a file name's stem gives.
pub open spec fn filename_date(s: Seq<char>) -> Option<Timestamp> {
    dates_from(s, 0)
}

fn run_starts_at(s: &Vec<char>, i: usize) -> (r: bool)
    ensures
        r == run_at(s@, i as int),
{
    if i > s.len() || s.len() - i < 8 {
        return false;
    }
    let mut k: usize = 0;
    while k < 8
        invariant
            i + 8 <= s.len(),
            k <= 8,
            forall|j: int| i <= j < i + k ==> #[trigger] is_digit_char(s@[j]),
        decreases 8 - k,
    {
        if !('0' <= s[i + k] && s[i + k] <= '9') {
            assert(!is_digit_char(s@[i + k]));
            return false;
        }
        k = k + 1;
    }
    true
}

/// Where pattern `p` captures its eight digits in `s`, if it matches.
pub fn capture(p: DatePattern, s: &Vec<char>) -> (r: Option<usize>)
    ensures
        r matches Some(i) ==> captures(p, s@, i as int),
        r is None ==> !has_capture(p, s@),
{
    match p {
        DatePattern::Leading => {
            if run_starts_at(s, 0) {
                Some(0)
            } else {
                None
            }
        },
        DatePattern::Underscore => {
            let mut i: usize = 1;
            while i < s.len()
                invariant
                    p == DatePattern::Underscore,
                    1 <= i,
                    forall|j: int| 0 <= j < i ==> !#[trigger] underscore_run_at(s@, j),
                decreases s.len() - i,
            {
                if s[i - 1] == '_' && run_starts_at(s, i) {
                    return Some(i);
                }
                i = i + 1;
            }
            assert forall|i: int| !captures(p, s@, i) by {
                if i >= s@.len() as int {
                    assert(!underscore_run_at(s@, i));
                }
            }
            None
        },
        DatePattern::LettersUnderscore | DatePattern::LettersHyphen | DatePattern::Groups => {
            let mut i: usize = 0;
            while i < s.len()
                invariant
                    p != DatePattern::Leading && p != DatePattern::Underscore,
                    forall|j: int| 0 <= j < i ==> !#[trigger] run_at(s@, j),
                decreases s.len() - i,
            {
                if run_starts_at(s, i) {
                    return Some(i);
                }
                i = i + 1;
            }
            assert forall|i: int| !captures(p, s@, i) by {
                if i >= s@.len() as int {
                    assert(!run_at(s@, i));
                }
            }
            None
        },
    }
}

proof fn lemma_capture_unique(p: DatePattern, s: Seq<char>, i: int, j: int)
    requires
        captures(p, s, i),
        captures(p, s, j),
    ensures
        i == j,
{
    match p {
        DatePattern::Leading => {},
        DatePattern::Underscore => {
            if i < j {
                assert(!underscore_run_at(s, i));
            } else if j < i {
                assert(!underscore_run_at(s, j));
            }
        },
        _ => {
            if i < j {
                assert(!run_at(s, i));
            } else if j < i {
                assert(!run_at(s, j));
            }
        },
    }
}

/// The date pattern `p` recovers from `s`, at noon UTC.
pub fn match_pattern(p: DatePattern, s: &Vec<char>) -> (r: Option<Timestamp>)
    ensures
        r == pattern_date(p, s@),
        r matches Some(t) ==> t.wf(),
{
    match capture(p, s) {
        Some(i) => {
            proof {
                let c = choose|j: int| captures(p, s@, j);
                lemma_capture_unique(p, s@, i as int, c);
            }
            let n = s.len();
            assert(i + 8 <= n);
            let year = read_chars_number(s, i, 4);
            let month = read_chars_number(s, i + 4, 2);
            let day = read_chars_number(s, i + 6, 2);
            proof {
                reveal_with_fuel(crate::digits::pow10, 5);
            }
            Timestamp::from_parts(year, month, day, 12, 0, 0)
        },
        None => None,
    }
}

fn pattern_by_index(k: usize) -> (r: DatePattern)
    ensures
        r == pattern_at(k as int),
{
    if k == 0 {
        DatePattern::LettersUnderscore
    } else if k == 1 {
        DatePattern::LettersHyphen
    } else if k == 2 {
        DatePattern::Leading
    } else if k == 3 {
        DatePattern::Underscore
    } else {
        DatePattern::Groups
    }
}

/// Tries the patterns in order and keeps the first date that is a real
/// calendar day; a pattern whose digits name no such day gives way to the
/// next. The time of day is noon UTC.
pub fn infer_date(stem: &str) -> (r: Option<Timestamp>)
    ensures
        r == filename_date(stem@),
        r matches Some(t) ==> t.wf(),
{
    let s = chars_of(stem);
    let mut k: usize = 0;
    while k < 5
        invariant
            k <= 5,
            s@ == stem@,
            dates_from(s@, 0) == dates_from(s@, k as int),
        decreases 5 - k,
    {
        let found = match_pattern(pattern_by_index(k), &s);
        if found.is_some() {
            return found;
        }
        k = k + 1;
    }
    None
}

pub open spec fn stem_or_empty(path: Seq<char>) -> Seq<char> {
    match file_stem_of(path) {
        Some(s) => s,
        None => Seq::empty(),
    }
}

/// The date that the file name of `path`, without its extension, gives.
pub fn extract_date_from_filename(path: &str) -> (r: Option<Timestamp>)
    ensures
        r == filename_date(stem_or_empty(path@)),
        r matches Some(t) ==> t.wf(),
{
    match path_stem(path) {
        Some(stem) => infer_date(stem.as_str()),
        None => {
            proof {
                reveal_strlit("");
            }
            assert(""@ =~= Seq::<char>::empty());
            infer_date("")
        },
    }
}

} // verus!

verus! {

/// `t` is the date that the eight digits at `i` spell, at noon UTC.
pub open spec fn spells(s: Seq<char>, i: int, t: Timestamp) -> bool {
    &&& t.year == chars_value(s, i, 4)
    &&& t.month == chars_value(s, i + 4, 2)
    &&& t.day == chars_value(s, i + 6, 2)
    &&& t.hour == 12 && t.minute == 0 && t.second == 0
}

proof fn lemma_dates_from_spell(s: Seq<char>, k: int)
    requires
        0 <= k,
    ensures
        dates_from(s, k) matches Some(t) ==> exists|p: DatePattern, i: int|
            #[trigger] captures(p, s, i) && spells(s, i, t) && run_at(s, i),
    decreases 5 - k,
{
    if k < 5 {
        let p = pattern_at(k);
        if pattern_date(p, s) is Some {
            let i = choose|i: int| captures(p, s, i);
            let t = pattern_date(p, s)->0;
            crate::digits::lemma_chars_value_bound(s, i, 4);
            crate::digits::lemma_chars_value_bound(s, i + 4, 2);
            crate::digits::lemma_chars_value_bound(s, i + 6, 2);
            reveal_with_fuel(crate::digits::pow10, 5);
            assert(captures(p, s, i) && spells(s, i, t) && run_at(s, i));
        } else {
            lemma_dates_from_spell(s, k + 1);
        }
    }
}

/// Whichever pattern supplies a file name's date, the date's `YYYYMMDD` is
/// the eight digits that pattern captured, and its time of day is noon UTC.
pub proof fn lemma_filename_date_spelled(s: Seq<char>)
    ensures
        filename_date(s) matches Some(t) ==> exists|p: DatePattern, i: int|
            #[trigger] captures(p, s, i) && spells(s, i, t) && run_at(s, i),
{
    lemma_dates_from_spell(s, 0);
}

} // verus!
