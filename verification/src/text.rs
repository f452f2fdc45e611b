//! Character-level helpers over `&str`: finding a character and comparing
//! two strings, each specified against the strings' character sequences.

use vstd::prelude::*;
use vstd::string::StrSliceExecFns;

verus! {

/// The index of the first occurrence of `c` in `s`, or `s.len()` when `c`
/// does not occur.
pub open spec fn find_ix(s: Seq<char>, c: char) -> int
    decreases s.len(),
{
    if s.len() == 0 {
        0
    } else if s[0] == c {
        0
    } else {
        1 + find_ix(s.drop_first(), c)
    }
}

/// What `find_ix` returns: a position within the string, carrying `c` if
/// within bounds, with nothing but other characters before it.
pub proof fn lemma_find_ix(s: Seq<char>, c: char)
    ensures
        0 <= find_ix(s, c) <= s.len(),
        find_ix(s, c) < s.len() ==> s[find_ix(s, c)] == c,
        forall|j: int| 0 <= j < find_ix(s, c) ==> s[j] != c,
    decreases s.len(),
{
    if s.len() == 0 {
    } else if s[0] == c {
    } else {
        lemma_find_ix(s.drop_first(), c);
        assert forall|j: int| 0 <= j < find_ix(s, c) implies s[j] != c by {
            if j > 0 {
                assert(s.drop_first()[j - 1] == s[j]);
                assert(s.drop_first()[j - 1] != c);
            }
        }
    }
}

/// The position of the first `c` in `s`, or the character length of `s`
/// when `c` does not occur.
pub fn find_char(s: &str, c: char) -> (ix: usize)
    ensures
        ix == find_ix(s@, c),
        ix <= s@.len(),
        ix < s@.len() ==> s@[ix as int] == c,
        forall|j: int| 0 <= j < ix ==> s@[j] != c,
{
    proof {
        lemma_find_ix(s@, c);
    }
    let n = s.unicode_len();
    let mut i: usize = 0;
    while i < n
        invariant
            n == s@.len(),
            i <= n,
            forall|j: int| 0 <= j < i ==> s@[j] != c,
            0 <= find_ix(s@, c) <= s@.len(),
            find_ix(s@, c) < s@.len() ==> s@[find_ix(s@, c)] == c,
            forall|j: int| 0 <= j < find_ix(s@, c) ==> s@[j] != c,
        decreases n - i,
    {
        if s.get_char(i) == c {
            return i;
        }
        i = i + 1;
    }
    n
}

/// Whether two strings consist of the same characters.
pub fn str_eq_chars(a: &str, b: &str) -> (r: bool)
    ensures
        r == (a@ == b@),
{
    let na = a.unicode_len();
    let nb = b.unicode_len();
    if na != nb {
        return false;
    }
    let mut i: usize = 0;
    while i < na
        invariant
            na == a@.len(),
            na == b@.len(),
            i <= na,
            forall|j: int| 0 <= j < i ==> a@[j] == b@[j],
        decreases na - i,
    {
        if a.get_char(i) != b.get_char(i) {
            return false;
        }
        i = i + 1;
    }
    proof {
        assert(a@ =~= b@);
    }
    true
}

} // verus!
