//! Cutting a text into lines and a line into its parts.

use crate::text::chars_of;
use vstd::prelude::*;

verus! {

/// `at` is the first place in `text` at which `c` stands.
pub open spec fn first_at(text: Seq<char>, c: char, at: int) -> bool {
    &&& 0 <= at < text.len()
    &&& text[at] == c
    &&& forall|k: int| 0 <= k < at ==> text[k] != c
}

/// The first place in `text` at which `c` stands, if it stands anywhere.
pub open spec fn index_of(text: Seq<char>, c: char) -> Option<int> {
    if exists|at: int| first_at(text, c, at) {
        Some(choose|at: int| first_at(text, c, at))
    } else {
        None
    }
}

/// A line without the carriage return at its end, if it has one.
pub open spec fn without_return(line: Seq<char>) -> Seq<char> {
    if line.len() > 0 && line.last() == '\r' {
        line.drop_last()
    } else {
        line
    }
}

/// The lines of a text. A line ends at a line feed, or at a carriage
/// return with a line feed behind it, and neither belongs to the line. The
/// last line needs no line feed, and a text that ends in one has no empty
/// line behind it.
pub open spec fn lines(text: Seq<char>) -> Seq<Seq<char>>
    decreases text.len(),
{
    if text.len() == 0 {
        Seq::empty()
    } else {
        match index_of(text, '\n') {
            Some(end) if 0 <= end < text.len() => seq![without_return(text.take(end))] + lines(
                text.skip(end + 1),
            ),
            _ => seq![text],
        }
    }
}

/// The characters of a list of lines.
pub open spec fn line_views(list: Seq<Vec<char>>) -> Seq<Seq<char>> {
    list.map_values(|l: Vec<char>| l@)
}

/// A character that is cut off the ends of a part: a blank or a comma,
/// and in the wide sense the letter b and the quotation mark too.
pub open spec fn filler(c: char, wide: bool) -> bool {
    c == ' ' || c == ',' || (wide && (c == 'b' || c == '"'))
}

/// `text` starts with exactly `count` fillers.
pub open spec fn leads(text: Seq<char>, wide: bool, count: int) -> bool {
    &&& 0 <= count <= text.len()
    &&& forall|k: int| 0 <= k < count ==> filler(#[trigger] text[k], wide)
    &&& count == text.len() || !filler(text[count], wide)
}

/// `text` ends with exactly `count` fillers.
pub open spec fn trails(text: Seq<char>, wide: bool, count: int) -> bool {
    &&& 0 <= count <= text.len()
    &&& forall|k: int| text.len() - count <= k < text.len() ==> filler(#[trigger] text[k], wide)
    &&& count == text.len() || !filler(text[text.len() - count - 1], wide)
}

/// `text` without the fillers at its start.
pub open spec fn trimmed_front(text: Seq<char>, wide: bool) -> Seq<char> {
    text.skip(choose|count: int| leads(text, wide, count))
}

/// `text` without the fillers at its end.
pub open spec fn trimmed_back(text: Seq<char>, wide: bool) -> Seq<char> {
    text.take(text.len() - choose|count: int| trails(text, wide, count))
}

/// `text` without the fillers at either end.
pub open spec fn trimmed(text: Seq<char>, wide: bool) -> Seq<char> {
    trimmed_back(trimmed_front(text, wide), wide)
}

/// `text` ends with `tail`.
pub open spec fn ends_with(text: Seq<char>, tail: Seq<char>) -> bool {
    text.len() >= tail.len() && text.skip(text.len() - tail.len()) == tail
}

/// `text` without `tail` at its end, however often it stands there.
pub open spec fn without_tail(text: Seq<char>, tail: Seq<char>) -> Seq<char>
    decreases text.len(),
{
    if tail.len() > 0 && ends_with(text, tail) {
        without_tail(text.take(text.len() - tail.len()), tail)
    } else {
        text
    }
}

/// The number that a run of digits stands for.
pub open spec fn digits_value(digits: Seq<char>) -> int
    decreases digits.len(),
{
    if digits.len() == 0 {
        0
    } else {
        digits_value(digits.drop_last()) * 10 + (digits.last() as u8 - 48)
    }
}

/// Every character of `digits` is a decimal digit.
pub open spec fn all_digits(digits: Seq<char>) -> bool {
    forall|i: int| 0 <= i < digits.len() ==> '0' <= #[trigger] digits[i] <= '9'
}

/// The digits of a number in writing: what follows its sign.
pub open spec fn unsigned(text: Seq<char>) -> Seq<char> {
    if text.len() > 0 && (text[0] == '-' || text[0] == '+') {
        text.drop_first()
    } else {
        text
    }
}

/// The whole number that `text` stands for: an optional sign and at least
/// one digit, and a value that fits in 32 bits.
pub open spec fn number(text: Seq<char>) -> Option<int> {
    let value = if text.len() > 0 && text[0] == '-' {
        -digits_value(unsigned(text))
    } else {
        digits_value(unsigned(text))
    };
    if unsigned(text).len() > 0 && all_digits(unsigned(text)) && i32::MIN <= value <= i32::MAX {
        Some(value)
    } else {
        None
    }
}

/// The first place in `text` at which `c` stands.
pub fn find_char(text: &Vec<char>, c: char) -> (at: Option<usize>)
    ensures
        match at {
            Some(i) => index_of(text@, c) == Some(i as int) && first_at(text@, c, i as int),
            None => index_of(text@, c) is None,
        },
{
    let mut i: usize = 0;
    while i < text.len()
        invariant
            i <= text.len(),
            forall|k: int| 0 <= k < i ==> text@[k] != c,
        decreases text.len() - i,
    {
        if text[i] == c {
            assert(first_at(text@, c, i as int));
            return Some(i);
        }
        i += 1;
    }
    None
}

/// The lines of a text.
pub fn split_lines(text: &str) -> (out: Vec<Vec<char>>)
    ensures
        line_views(out@) == lines(text@),
{
    let chars = chars_of(text);
    let mut out: Vec<Vec<char>> = Vec::new();
    let mut line: Vec<char> = Vec::new();
    let mut start: usize = 0;
    let mut i: usize = 0;
    proof {
        assert(chars@.skip(0) =~= chars@);
        assert(line_views(out@) + lines(chars@) =~= lines(chars@));
    }
    while i < chars.len()
        invariant
            start <= i <= chars.len(),
            chars@ == text@,
            line@ == chars@.subrange(start as int, i as int),
            forall|k: int| start <= k < i ==> chars@[k] != '\n',
            lines(text@) == line_views(out@) + lines(chars@.skip(start as int)),
        decreases chars.len() - i,
    {
        let c = chars[i];
        if c == '\n' {
            let ghost rest = chars@.skip(start as int);
            let ghost before = line_views(out@);
            proof {
                assert(first_at(rest, '\n', i - start));
                assert(index_of(rest, '\n') == Some(i - start));
                assert(rest.take(i - start) =~= line@);
                assert(rest.skip(i - start + 1) =~= chars@.skip(i + 1));
            }
            let ghost whole = line@;
            if line.len() > 0 && line[line.len() - 1] == '\r' {
                line.pop();
            }
            assert(line@ =~= without_return(whole));
            let ghost cut = line@;
            out.push(line);
            line = Vec::new();
            start = i + 1;
            proof {
                assert(line_views(out@) =~= before.push(cut));
                assert(lines(rest) == seq![cut] + lines(chars@.skip(i + 1)));
                assert(before + (seq![cut] + lines(chars@.skip(i + 1))) =~= before.push(cut)
                    + lines(chars@.skip(start as int)));
                assert(line@ =~= chars@.subrange(start as int, i + 1));
            }
        } else {
            line.push(c);
            assert(line@ =~= chars@.subrange(start as int, i + 1));
        }
        i += 1;
    }
    let ghost rest = chars@.skip(start as int);
    let ghost before = line_views(out@);
    if line.len() > 0 {
        proof {
            assert(rest =~= line@);
            assert(index_of(rest, '\n') is None) by {
                if exists|at: int| first_at(rest, '\n', at) {
                    let at = choose|at: int| first_at(rest, '\n', at);
                    assert(chars@[start + at] == '\n');
                }
            }
        }
        out.push(line);
        assert(line_views(out@) =~= before + seq![rest]);
    } else {
        assert(rest.len() == 0);
        assert(before + lines(rest) =~= before);
    }
    out
}

/// How many fillers stand at the start of `text`, from `from` on and
/// before `to`.
fn count_leading(text: &Vec<char>, wide: bool, from: usize, to: usize) -> (count: usize)
    requires
        from <= to <= text.len(),
    ensures
        leads(text@.subrange(from as int, to as int), wide, count as int),
{
    let ghost part = text@.subrange(from as int, to as int);
    let mut i: usize = from;
    while i < to && is_filler(text[i], wide)
        invariant
            from <= i <= to,
            to <= text.len(),
            part == text@.subrange(from as int, to as int),
            forall|k: int| 0 <= k < i - from ==> filler(#[trigger] part[k], wide),
        decreases to - i,
    {
        i += 1;
    }
    i - from
}

/// How many fillers stand at the end of `text`, from `from` on and before
/// `to`.
fn count_trailing(text: &Vec<char>, wide: bool, from: usize, to: usize) -> (count: usize)
    requires
        from <= to <= text.len(),
    ensures
        trails(text@.subrange(from as int, to as int), wide, count as int),
{
    let ghost part = text@.subrange(from as int, to as int);
    let mut i: usize = to;
    while i > from && is_filler(text[i - 1], wide)
        invariant
            from <= i <= to,
            to <= text.len(),
            part == text@.subrange(from as int, to as int),
            forall|k: int| i - from <= k < part.len() ==> filler(#[trigger] part[k], wide),
        decreases i - from,
    {
        i -= 1;
    }
    to - i
}

/// Whether a character is cut off the ends of a part.
pub fn is_filler(c: char, wide: bool) -> (yes: bool)
    ensures
        yes == filler(c, wide),
{
    c == ' ' || c == ',' || (wide && (c == 'b' || c == '"'))
}

proof fn lemma_leads_once(text: Seq<char>, wide: bool, a: int, b: int)
    requires
        leads(text, wide, a),
        leads(text, wide, b),
    ensures
        a == b,
{
    if a < b {
        assert(filler(text[a], wide));
    } else if b < a {
        assert(filler(text[b], wide));
    }
}

proof fn lemma_trails_once(text: Seq<char>, wide: bool, a: int, b: int)
    requires
        trails(text, wide, a),
        trails(text, wide, b),
    ensures
        a == b,
{
    if a < b {
        assert(filler(text[text.len() - a - 1], wide));
    } else if b < a {
        assert(filler(text[text.len() - b - 1], wide));
    }
}

/// `text` without the fillers at either end.
pub fn trim(text: &Vec<char>, wide: bool) -> (out: Vec<char>)
    ensures
        out@ == trimmed(text@, wide),
{
    let len = text.len();
    let lead = count_leading(text, wide, 0, len);
    let trail = count_trailing(text, wide, lead, len);
    proof {
        assert(text@.subrange(0, len as int) =~= text@);
        let chosen = choose|count: int| leads(text@, wide, count);
        lemma_leads_once(text@, wide, lead as int, chosen);
        let front = trimmed_front(text@, wide);
        assert(front =~= text@.subrange(lead as int, len as int));
        let picked = choose|count: int| trails(front, wide, count);
        lemma_trails_once(front, wide, trail as int, picked);
    }
    let mut out: Vec<char> = Vec::new();
    let mut i: usize = lead;
    let end: usize = len - trail;
    while i < end
        invariant
            lead <= i <= end,
            end <= text.len(),
            out@ == text@.subrange(lead as int, i as int),
        decreases end - i,
    {
        out.push(text[i]);
        assert(out@ =~= text@.subrange(lead as int, i + 1));
        i += 1;
    }
    assert(out@ =~= trimmed(text@, wide));
    out
}

/// Whether the first `len` characters of `text` end with `tail`.
fn ends_at(text: &Vec<char>, len: usize, tail: &Vec<char>) -> (yes: bool)
    requires
        len <= text.len(),
    ensures
        yes == ends_with(text@.take(len as int), tail@),
{
    if tail.len() > len {
        return false;
    }
    let from: usize = len - tail.len();
    let mut j: usize = 0;
    while j < tail.len()
        invariant
            j <= tail.len(),
            from + tail.len() == len,
            len <= text.len(),
            forall|k: int| 0 <= k < j ==> text@[from + k] == tail@[k],
        decreases tail.len() - j,
    {
        if text[from + j] != tail[j] {
            assert(text@.take(len as int).skip(from as int)[j as int] != tail@[j as int]);
            return false;
        }
        j += 1;
    }
    assert(text@.take(len as int).skip(from as int) =~= tail@);
    true
}

/// The length of `text` without `tail` at its end, however often it stands
/// there.
pub fn strip_tail(text: &Vec<char>, tail: &Vec<char>) -> (len: usize)
    ensures
        len <= text.len(),
        text@.take(len as int) == without_tail(text@, tail@),
{
    let mut len: usize = text.len();
    assert(text@.take(len as int) =~= text@);
    if tail.len() == 0 {
        return len;
    }
    while ends_at(text, len, tail)
        invariant
            len <= text.len(),
            tail.len() > 0,
            without_tail(text@, tail@) == without_tail(text@.take(len as int), tail@),
        decreases len,
    {
        assert(text@.take(len as int).take(len - tail.len()) =~= text@.take(len - tail.len()));
        len = len - tail.len();
    }
    len
}

/// The whole number that `text` stands for.
pub fn parse_number(text: &Vec<char>) -> (value: Option<i32>)
    ensures
        match value {
            Some(v) => number(text@) == Some(v as int),
            None => number(text@) is None,
        },
{
    let len = text.len();
    let signed = len > 0 && (text[0] == '-' || text[0] == '+');
    let negative = len > 0 && text[0] == '-';
    let from: usize = if signed {
        1
    } else {
        0
    };
    let ghost digits = unsigned(text@);
    assert(digits =~= text@.skip(from as int));
    if from == len {
        return None;
    }
    let cap: u64 = 0x8000_0001;
    let mut acc: u64 = 0;
    let mut i: usize = from;
    assert(digits.take(0) =~= Seq::<char>::empty());
    while i < len
        invariant
            from <= i <= len,
            len == text.len(),
            cap == 0x8000_0001,
            digits == text@.skip(from as int),
            digits == unsigned(text@),
            all_digits(digits.take(i - from)),
            0 <= digits_value(digits.take(i - from)),
            acc == if digits_value(digits.take(i - from)) < cap {
                digits_value(digits.take(i - from))
            } else {
                cap as int
            },
        decreases len - i,
    {
        let c = text[i];
        if !('0' <= c && c <= '9') {
            assert(digits[i - from] == c);
            assert(!all_digits(digits));
            return None;
        }
        let d: u64 = (c as u8 - 48) as u64;
        proof {
            let next = digits.take(i - from + 1);
            assert(next.drop_last() =~= digits.take(i - from));
            assert(next.last() == c);
            assert forall|k: int| 0 <= k < next.len() implies '0' <= #[trigger] next[k] <= '9' by {
                if k < i - from {
                    assert(digits.take(i - from)[k] == next[k]);
                }
            }
        }
        acc = acc * 10 + d;
        if acc > cap {
            acc = cap;
        }
        i += 1;
    }
    assert(digits.take(len - from) =~= digits);
    if negative {
        if acc <= 0x8000_0000 {
            Some((-(acc as i64)) as i32)
        } else {
            None
        }
    } else {
        if acc <= 0x7fff_ffff {
            Some(acc as i32)
        } else {
            None
        }
    }
}

} // verus!
