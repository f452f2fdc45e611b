//! Splitting paste content into lines for the highlighter, each line kept
//! with its ending. The rendering itself belongs to the HTTP layer; what
//! is verified here is that the lines handed over are exactly the content,
//! split just past every newline.

use vstd::prelude::*;
use crate::text::{find_char, find_ix};
use vstd::string::StrSliceExecFns;

verus! {

/// Where the first line of `s` ends: just past the first newline, or at
/// the end of `s` when no newline remains.
pub open spec fn line_end(s: Seq<char>) -> int {
    if find_ix(s, '\n') < s.len() {
        find_ix(s, '\n') + 1
    } else {
        s.len() as int
    }
}

/// An iterator-style cursor over the lines of a string, each line carrying
/// its newline; the last line may lack one.
pub struct LinesWithEndings<'a>(pub &'a str);

impl<'a> LinesWithEndings<'a> {
    /// The next line — the text up to and including the first remaining
    /// newline — or `None` once no text remains.
    pub fn next(&mut self) -> (r: Option<&'a str>)
        ensures
            old(self).0@.len() == 0 ==> r is None && final(self).0@ == old(self).0@,
            old(self).0@.len() > 0 ==> (r matches Some(line) && line@ == old(self).0@.take(
                line_end(old(self).0@),
            ) && final(self).0@ == old(self).0@.skip(line_end(old(self).0@))),
    {
        if self.0.is_empty() {
            None
        } else {
            let s = self.0;
            let n = s.unicode_len();
            let ix = find_char(s, '\n');
            let split: usize = if ix < n {
                ix + 1
            } else {
                n
            };
            let line = s.substring_char(0, split);
            let rest = s.substring_char(split, n);
            self.0 = rest;
            Some(line)
        }
    }
}

} // verus!
