//! Reading the starting line of the new range out of unified-diff text.
use vstd::prelude::*;
use crate::text::{chars_of, find_chars, find_from, sub_chars, trim, trim_bounds};

verus! {

/// The hunk delimiter of a unified diff.
pub open spec fn hunk_marker() -> Seq<char> {
    seq!['@', '@']
}

/// The text between the first hunk delimiter and the next one (or the end):
/// the second piece of the text split at the delimiter.
pub open spec fn hunk_header(d: Seq<char>) -> Option<Seq<char>> {
    match find_from(d, hunk_marker(), 0) {
        None => None,
        Some(i) => {
            let start = i + 2;
            let end = match find_from(d, hunk_marker(), start) {
                Some(j) => j,
                None => d.len() as int,
            };
            Some(d.subrange(start, end))
        },
    }
}

/// The second piece of `h` split at single spaces.
pub open spec fn second_field(h: Seq<char>) -> Option<Seq<char>> {
    match find_from(h, seq![' '], 0) {
        None => None,
        Some(j) => {
            let end = match find_from(h, seq![' '], j + 1) {
                Some(k) => k,
                None => h.len() as int,
            };
            Some(h.subrange(j + 1, end))
        },
    }
}

/// The part of `t` before its first comma.
pub open spec fn before_comma(t: Seq<char>) -> Seq<char> {
    match find_from(t, seq![','], 0) {
        Some(c) => t.subrange(0, c),
        None => t,
    }
}

/// `s` with every `+` removed.
pub open spec fn without_plus(s: Seq<char>) -> Seq<char>
    decreases s.len(),
{
    if s.len() == 0 {
        s
    } else if s.last() == '+' {
        without_plus(s.drop_last())
    } else {
        without_plus(s.drop_last()).push(s.last())
    }
}

pub open spec fn is_digit(c: char) -> bool {
    '0' <= c <= '9'
}

pub open spec fn digit_value(c: char) -> nat {
    (c as u32 - '0' as u32) as nat
}

/// The number that a string of decimal digits denotes.
pub open spec fn digits_value(s: Seq<char>) -> nat
    decreases s.len(),
{
    if s.len() == 0 {
        0
    } else {
        digits_value(s.drop_last()) * 10 + digit_value(s.last())
    }
}

/// What parsing `s` as a `u32` gives, for a string without a sign.
pub open spec fn parse_u32(s: Seq<char>) -> Option<u32> {
    if s.len() > 0 && (forall|k: int| 0 <= k < s.len() ==> is_digit(#[trigger] s[k]))
        && digits_value(s) <= u32::MAX {
        Some(digits_value(s) as u32)
    } else {
        None
    }
}

/// The starting line of the new range in the first hunk header of `d`.
pub open spec fn diff_start_line(d: Seq<char>) -> Option<u32> {
    match hunk_header(d) {
        None => None,
        Some(h) => match second_field(trim(h)) {
            None => None,
            Some(t) => parse_u32(without_plus(before_comma(t))),
        },
    }
}

fn drop_plus(s: &Vec<char>) -> (r: Vec<char>)
    ensures
        r@ == without_plus(s@),
{
    let mut r: Vec<char> = Vec::new();
    let mut i: usize = 0;
    while i < s.len()
        invariant
            i <= s.len(),
            r@ == without_plus(s@.take(i as int)),
        decreases s.len() - i,
    {
        assert(s@.take(i + 1).drop_last() =~= s@.take(i as int));
        if s[i] != '+' {
            r.push(s[i]);
        }
        i = i + 1;
    }
    assert(s@.take(s.len() as int) =~= s@);
    r
}

const CAP: u64 = 0x1_0000_0000;

fn parse_digits(s: &Vec<char>) -> (r: Option<u32>)
    ensures
        r == parse_u32(s@),
{
    if s.len() == 0 {
        return None;
    }
    let mut acc: u64 = 0;
    let mut i: usize = 0;
    while i < s.len()
        invariant
            i <= s.len(),
            forall|k: int| 0 <= k < i ==> is_digit(#[trigger] s@[k]),
            acc == if digits_value(s@.take(i as int)) < CAP {
                digits_value(s@.take(i as int))
            } else {
                CAP as nat
            },
        decreases s.len() - i,
    {
        let c = s[i];
        if !('0' <= c && c <= '9') {
            return None;
        }
        assert(s@.take(i + 1).drop_last() =~= s@.take(i as int));
        let d = (c as u32 - '0' as u32) as u64;
        if acc < CAP {
            acc = acc * 10 + d;
        }
        if acc > CAP {
            acc = CAP;
        }
        i = i + 1;
    }
    assert(s@.take(s.len() as int) =~= s@);
    if acc < CAP {
        Some(acc as u32)
    } else {
        None
    }
}

/// The starting line of the new range in the first hunk header of a unified
/// diff (`@@ -a,b +c,d @@` gives `c`), or `None` where the text has no such
/// header or its number does not parse.
pub fn get_line_number_from_diff_str(diff: &str) -> (r: Option<u32>)
    ensures
        r == diff_start_line(diff@),
{
    let d = chars_of(diff);
    let marker: Vec<char> = vec!['@', '@'];
    let space: Vec<char> = vec![' '];
    let comma: Vec<char> = vec![','];
    assert(marker@ =~= hunk_marker());
    assert(space@ =~= seq![' ']);
    assert(comma@ =~= seq![',']);
    let first = match find_chars(&d, &marker, 0) {
        Some(i) => i,
        None => return None,
    };
    let start = first + 2;
    let end = match find_chars(&d, &marker, start) {
        Some(j) => j,
        None => d.len(),
    };
    let header = sub_chars(&d, start, end);
    let (a, b) = trim_bounds(&header);
    let h = sub_chars(&header, a, b);
    assert(hunk_header(diff@) == Some(header@));
    assert(h@ == trim(header@));
    let gap = match find_chars(&h, &space, 0) {
        Some(j) => j,
        None => return None,
    };
    let field_end = match find_chars(&h, &space, gap + 1) {
        Some(k) => k,
        None => h.len(),
    };
    let field = sub_chars(&h, gap + 1, field_end);
    assert(second_field(h@) == Some(field@));
    let cut = match find_chars(&field, &comma, 0) {
        Some(c) => c,
        None => field.len(),
    };
    let range_start = sub_chars(&field, 0, cut);
    proof {
        if cut == field.len() {
            assert(field@.subrange(0, cut as int) =~= field@);
        }
    }
    let digits = drop_plus(&range_start);
    parse_digits(&digits)
}

} // verus!
