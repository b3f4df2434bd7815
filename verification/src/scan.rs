//! Character-level scanning helpers shared by the resolver and the renderer:
//! matching a literal at a position and finding the end of a line.

use vstd::prelude::*;

verus! {

/// The position of the first `'\n'` in `s` at or after `from`, or `s.len()`
/// when no newline follows.
pub open spec fn line_end(s: Seq<char>, from: int) -> int
    decreases s.len() - from,
{
    if from < 0 || from >= s.len() {
        s.len() as int
    } else if s[from] == '\n' {
        from
    } else {
        line_end(s, from + 1)
    }
}

pub proof fn lemma_line_end_found(s: Seq<char>, from: int, k: int)
    requires
        0 <= from <= k < s.len(),
        forall|j: int| from <= j < k ==> s[j] != '\n',
        s[k] == '\n',
    ensures
        line_end(s, from) == k,
    decreases k - from,
{
    if from < k {
        lemma_line_end_found(s, from + 1, k);
    }
}

pub proof fn lemma_line_end_none(s: Seq<char>, from: int)
    requires
        0 <= from <= s.len(),
        forall|j: int| from <= j < s.len() ==> s[j] != '\n',
    ensures
        line_end(s, from) == s.len(),
    decreases s.len() - from,
{
    if from < s.len() {
        lemma_line_end_none(s, from + 1);
    }
}

/// Finds the character position of the first `'\n'` at or after `from`.
pub(crate) fn find_line_end(s: &str, from: usize) -> (r: usize)
    requires
        from <= s@.len(),
    ensures
        r == line_end(s@, from as int),
        from <= r <= s@.len(),
{
    let n = s.unicode_len();
    let mut i: usize = from;
    while i < n
        invariant
            from <= i <= n,
            n == s@.len(),
            forall|j: int| from <= j < i ==> s@[j] != '\n',
        decreases n - i,
    {
        if s.get_char(i) == '\n' {
            proof {
                lemma_line_end_found(s@, from as int, i as int);
            }
            return i;
        }
        i = i + 1;
    }
    proof {
        lemma_line_end_none(s@, from as int);
    }
    n
}

/// True when `lit` occurs in `s` starting at character position `start`.
pub(crate) fn matches_lit_at(s: &str, start: usize, lit: &str) -> (b: bool)
    requires
        start + lit@.len() <= s@.len(),
    ensures
        b == (s@.subrange(start as int, start as int + lit@.len() as int) == lit@),
{
    let n = s.unicode_len();
    let m = lit.unicode_len();
    let mut i: usize = 0;
    while i < m
        invariant
            0 <= i <= m,
            m == lit@.len(),
            n == s@.len(),
            start + m <= n,
            forall|j: int| 0 <= j < i ==> s@[start + j] == lit@[j],
        decreases m - i,
    {
        if s.get_char(start + i) != lit.get_char(i) {
            assert(s@.subrange(start as int, start as int + m as int)[i as int] == s@[start + i]);
            return false;
        }
        i = i + 1;
    }
    proof {
        assert(s@.subrange(start as int, start as int + m as int) =~= lit@);
    }
    true
}

} // verus!
