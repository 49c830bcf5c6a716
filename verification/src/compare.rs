//! Rules that say whether a text is matched: a request path that needs no
//! token, a caller's address that is turned away.

use crate::text::{same_text, texts};
use std::sync::Arc;
use vstd::prelude::*;

verus! {

/// Some member of `literals` is `text`.
pub open spec fn any_is(text: Seq<char>, literals: Seq<Seq<char>>) -> bool {
    exists|i: int| 0 <= i < literals.len() && #[trigger] literals[i] == text
}

/// The character sequences of a list of string slices.
pub open spec fn slices(list: Seq<&str>) -> Seq<Seq<char>> {
    list.map_values(|s: &str| s@)
}

/// A rule over texts. A literal matches the text that is the literal, and
/// no other. A list of literals matches the texts that are among its
/// members. A function matches whatever it answers `true` for.
pub trait CompareStr: Clone {
    /// Whether the rule can be asked at all. A rule is ready unless it
    /// says otherwise.
    open spec fn ready(&self) -> bool {
        true
    }

    /// Whether `hit` is an answer that the rule may give for `text`. A rule
    /// that says nothing of its answers may give either.
    open spec fn verdict(&self, text: Seq<char>, hit: bool) -> bool {
        true
    }

    fn compare(&self, uri: &str) -> (hit: bool)
        requires
            self.ready(),
        ensures
            self.verdict(uri@, hit),
    ;
}

impl<F: Fn(&str) -> bool + Clone> CompareStr for F {
    open spec fn ready(&self) -> bool {
        forall|uri: &str| call_requires(*self, (uri,))
    }

    open spec fn verdict(&self, text: Seq<char>, hit: bool) -> bool {
        exists|uri: &str| uri@ == text && call_ensures(*self, (uri,), hit)
    }

    fn compare(&self, uri: &str) -> (hit: bool) {
        self(uri)
    }
}

impl<'a> CompareStr for &'a str {
    open spec fn ready(&self) -> bool {
        true
    }

    open spec fn verdict(&self, text: Seq<char>, hit: bool) -> bool {
        hit == (text == self@)
    }

    fn compare(&self, uri: &str) -> (hit: bool) {
        same_text(uri, self)
    }
}

impl CompareStr for Arc<String> {
    open spec fn ready(&self) -> bool {
        true
    }

    open spec fn verdict(&self, text: Seq<char>, hit: bool) -> bool {
        hit == (text == self@)
    }

    fn compare(&self, uri: &str) -> (hit: bool) {
        same_text(uri, self.as_str())
    }
}

impl<const N: usize> CompareStr for &'static [&'static str; N] {
    open spec fn ready(&self) -> bool {
        true
    }

    open spec fn verdict(&self, text: Seq<char>, hit: bool) -> bool {
        hit == any_is(text, slices(self@))
    }

    fn compare(&self, uri: &str) -> (hit: bool) {
        let mut i: usize = 0;
        while i < N
            invariant
                i <= N,
                forall|k: int| 0 <= k < i ==> #[trigger] slices(self@)[k] != uri@,
            decreases N - i,
        {
            if same_text(uri, self[i]) {
                assert(slices(self@)[i as int] == uri@);
                return true;
            }
            i += 1;
        }
        false
    }
}

impl CompareStr for Arc<Vec<String>> {
    open spec fn ready(&self) -> bool {
        true
    }

    open spec fn verdict(&self, text: Seq<char>, hit: bool) -> bool {
        hit == any_is(text, texts(self@))
    }

    fn compare(&self, uri: &str) -> (hit: bool) {
        let mut i: usize = 0;
        while i < self.len()
            invariant
                i <= self.len(),
                forall|k: int| 0 <= k < i ==> #[trigger] texts(self@)[k] != uri@,
            decreases self.len() - i,
        {
            if same_text(uri, self[i].as_str()) {
                assert(texts(self@)[i as int] == uri@);
                return true;
            }
            i += 1;
        }
        false
    }
}

/// The function that matches nothing.
pub fn always_false(_uri: &str) -> (hit: bool)
    ensures
        !hit,
{
    false
}

/// The rule that matches nothing.
#[derive(Debug, Clone, Copy, PartialEq, Eq)]
pub struct Nothing;

impl CompareStr for Nothing {
    open spec fn ready(&self) -> bool {
        true
    }

    open spec fn verdict(&self, text: Seq<char>, hit: bool) -> bool {
        !hit
    }

    fn compare(&self, uri: &str) -> (hit: bool) {
        always_false(uri)
    }
}

} // verus!
