//! Limits on the fields of a form that comes in parts.

use crate::resp::Res;
use crate::text::{decimal, push_decimal};
use crate::tools::unit::{unit, unit_text, MB};
use crate::http::UNPROCESSABLE;
use crate::tools::validate::failed;
use std::ops::Range;
use vstd::prelude::*;
use vstd::string::StringExecFns;

verus! {

/// One field of a form, with the limits it is held to: how large a value
/// may be, and how many values may come.
#[derive(Debug)]
pub struct Take<T> {
    pub value: T,
    /// The sizes that a value may have, the upper one left out.
    pub limit: Range<u64>,
    /// How many values may come.
    pub count: Range<u64>,
    /// How many have come.
    index: u64,
}

/// Why a field did not pass.
#[derive(Debug, Clone, PartialEq, Eq)]
pub enum TakeError {
    /// A value has a size outside the limit, whose bounds these are.
    Size(u64, u64),
    /// More values came than this.
    TooMany(u64),
    /// Not exactly this many values came.
    Exactly(u64),
    /// Fewer values came than this, or too many.
    AtLeast(u64),
}

impl TakeError {
    /// What the error reads as.
    pub open spec fn text(self) -> Seq<char> {
        match self {
            TakeError::Size(start, end) => "大小"@ + unit_text(start as nat) + "-"@ + unit_text(
                end as nat,
            ),
            TakeError::TooMany(end) => "不大于"@ + decimal(end as nat) + "个"@,
            TakeError::Exactly(start) => "必须有"@ + decimal(start as nat) + "个"@,
            TakeError::AtLeast(start) => "至少有"@ + decimal(start as nat) + "个"@,
        }
    }

    /// What the error reads as.
    pub fn to_text(&self) -> (text: String)
        ensures
            text@ == self.text(),
    {
        match self {
            TakeError::Size(start, end) => {
                let mut text = String::from_str("大小");
                text.append(unit(*start).as_str());
                text.append("-");
                text.append(unit(*end).as_str());
                text
            },
            TakeError::TooMany(end) => {
                let mut text = String::from_str("不大于");
                push_decimal(&mut text, *end);
                text.append("个");
                text
            },
            TakeError::Exactly(start) => {
                let mut text = String::from_str("必须有");
                push_decimal(&mut text, *start);
                text.append("个");
                text
            },
            TakeError::AtLeast(start) => {
                let mut text = String::from_str("至少有");
                push_decimal(&mut text, *start);
                text.append("个");
                text
            },
        }
    }
}

impl<T> Take<T> {
    /// How many values have come.
    pub closed spec fn taken(self) -> u64 {
        self.index
    }

    /// The value held.
    pub closed spec fn held(self) -> T {
        self.value
    }

    /// The sizes that a value may have, the upper one left out.
    pub closed spec fn sizes(self) -> Range<u64> {
        self.limit
    }

    /// How many values may come.
    pub closed spec fn counts(self) -> Range<u64> {
        self.count
    }

    /// A field that starts from `value`, takes one value and no more, and
    /// takes none of five megabytes or above.
    pub fn value(value: T) -> (take: Self)
        ensures
            take.held() == value,
            take.sizes() == (Range { start: 0u64, end: (5 * MB) as u64 }),
            take.counts() == (Range { start: 1u64, end: 1u64 }),
            take.taken() == 0,
    {
        Take { value, limit: 0..5 * MB, count: 1..1, index: 0 }
    }

    /// How many values have come.
    pub fn index(&self) -> (index: u64)
        ensures
            index == self.taken(),
    {
        self.index
    }

    /// What taking one more value of `size` bytes leads to. A size outside
    /// the limit is an error, and the value does not count. A value beyond
    /// the largest count is an error too, but counts.
    pub open spec fn extracted(self, size: u64) -> (u64, Option<TakeError>) {
        if !(self.sizes().start <= size < self.sizes().end) {
            (self.taken(), Some(TakeError::Size(self.sizes().start, self.sizes().end)))
        } else if self.taken() == u64::MAX || self.taken() + 1 > self.counts().end {
            (
                if self.taken() == u64::MAX {
                    self.taken()
                } else {
                    (self.taken() + 1) as u64
                },
                Some(TakeError::TooMany(self.counts().end)),
            )
        } else {
            ((self.taken() + 1) as u64, None)
        }
    }

    /// Takes note of one more value, of `size` bytes.
    pub fn extract(&mut self, size: u64) -> (res: Result<(), TakeError>)
        ensures
            final(self).held() == old(self).held(),
            final(self).sizes() == old(self).sizes(),
            final(self).counts() == old(self).counts(),
            final(self).taken() == old(self).extracted(size).0,
            match old(self).extracted(size).1 {
                Some(e) => res == Err::<(), TakeError>(e),
                None => res is Ok,
            },
    {
        if !(self.limit.start <= size && size < self.limit.end) {
            return Err(TakeError::Size(self.limit.start, self.limit.end));
        }
        if self.index == u64::MAX {
            return Err(TakeError::TooMany(self.count.end));
        }
        self.index = self.index + 1;
        if self.index > self.count.end {
            return Err(TakeError::TooMany(self.count.end));
        }
        Ok(())
    }

    /// What is found once all values have come. Where the two bounds of
    /// the count are the same, exactly that many must have come. Otherwise
    /// the number must lie within the bounds, the upper one left out.
    pub open spec fn verified(self) -> Option<TakeError> {
        if self.counts().start == self.counts().end {
            if self.taken() != self.counts().start {
                Some(TakeError::Exactly(self.counts().start))
            } else {
                None
            }
        } else if !(self.counts().start <= self.taken() < self.counts().end) {
            Some(TakeError::AtLeast(self.counts().start))
        } else {
            None
        }
    }

    /// Checks the number of values once all have come.
    pub fn verify(&self) -> (res: Result<(), TakeError>)
        ensures
            match self.verified() {
                Some(e) => res == Err::<(), TakeError>(e),
                None => res is Ok,
            },
    {
        let start = self.count.start;
        let end = self.count.end;
        if start == end {
            if self.index != start {
                return Err(TakeError::Exactly(start));
            }
        } else if !(start <= self.index && self.index < end) {
            return Err(TakeError::AtLeast(start));
        }
        Ok(())
    }
}

/// A field's name with what was found on it.
pub type Failure = (String, String);

/// The character sequences of a list of failures.
pub open spec fn failures(list: Seq<Failure>) -> Seq<(Seq<char>, Seq<char>)> {
    list.map_values(|f: Failure| (f.0@, f.1@))
}

/// The fields of a summary, one after the other: each field's name, and
/// what was found on it in angle brackets.
pub open spec fn failures_text(list: Seq<(Seq<char>, Seq<char>)>) -> Seq<char>
    decreases list.len(),
{
    if list.len() == 0 {
        Seq::empty()
    } else {
        failures_text(list.drop_last()) + list.last().0 + "<"@ + list.last().1 + ">; "@
    }
}

/// The summary of a list of failures: the opening words and the fields,
/// without the blank at the very end.
pub open spec fn summary_text(list: Seq<(Seq<char>, Seq<char>)>) -> Seq<char> {
    (failed() + failures_text(list)).drop_last()
}

/// Sums the failures of a form's fields up. A form without failures
/// passes. Any other is rejected as unprocessable, with a message that
/// names every field and what was found on it.
pub fn summary(list: &Vec<Failure>) -> (res: Result<(), Res<()>>)
    ensures
        list.len() == 0 ==> res is Ok,
        list.len() > 0 ==> res is Err && res->Err_0.says(
            UNPROCESSABLE,
            summary_text(failures(list@)),
        ),
{
    if list.len() == 0 {
        return Ok(());
    }
    let ghost view = failures(list@);
    let mut text = String::from_str("数据验证失败: ");
    let mut i: usize = 0;
    assert(failures_text(view.take(0)) =~= Seq::<char>::empty());
    while i < list.len()
        invariant
            i <= list.len(),
            view == failures(list@),
            text@ == failed() + failures_text(view.take(i as int)),
        decreases list.len() - i,
    {
        let ghost before = text@;
        text.append(list[i].0.as_str());
        text.append("<");
        text.append(list[i].1.as_str());
        text.append(">; ");
        proof {
            let next = view.take(i + 1);
            assert(next.drop_last() =~= view.take(i as int));
            assert(next.last() == view[i as int]);
            assert(text@ =~= failed() + failures_text(next));
        }
        i += 1;
    }
    proof {
        assert(view.take(list.len() as int) =~= view);
        reveal_strlit("数据验证失败: ");
        assert(text@.len() > 0);
    }
    let mut cut = crate::text::chars_of(text.as_str());
    cut.pop();
    assert(cut@ =~= text@.drop_last());
    let text = crate::text::text_of(&cut);
    Err(Res::msg(UNPROCESSABLE, text.as_str()))
}

} // verus!
