//! Comparisons on text, character by character.

use vstd::prelude::*;
use vstd::string::StrSliceExecFns;

verus! {

/// `s` ends with `suffix`.
pub open spec fn ends_with(s: Seq<char>, suffix: Seq<char>) -> bool {
    s.len() >= suffix.len() && s.subrange(s.len() - suffix.len(), s.len() as int) == suffix
}

/// `needle` occurs in `s` starting at position `i`.
pub open spec fn occurs_at(s: Seq<char>, needle: Seq<char>, i: int) -> bool {
    0 <= i && i + needle.len() <= s.len() && s.subrange(i, i + needle.len()) == needle
}

/// `needle` occurs somewhere in `s`.
pub open spec fn contains(s: Seq<char>, needle: Seq<char>) -> bool {
    exists|i: int| occurs_at(s, needle, i)
}

/// `a` and `b` hold the same characters at positions `i` up to `i + len` and `j` up to `j + len`.
fn same_run(a: &str, i: usize, b: &str, j: usize, len: usize) -> (r: bool)
    requires
        i + len <= a@.len() <= usize::MAX,
        j + len <= b@.len() <= usize::MAX,
    ensures
        r == (a@.subrange(i as int, i + len) == b@.subrange(j as int, j + len)),
{
    let mut k: usize = 0;
    while k < len
        invariant
            k <= len,
            i + len <= a@.len() <= usize::MAX,
            j + len <= b@.len() <= usize::MAX,
            a@.subrange(i as int, i + k) == b@.subrange(j as int, j + k),
        decreases len - k,
    {
        if a.get_char(i + k) != b.get_char(j + k) {
            assert(a@.subrange(i as int, i + len)[k as int] != b@.subrange(j as int, j + len)[k as int]);
            return false;
        }
        assert(a@.subrange(i as int, i + k + 1) =~= a@.subrange(i as int, i + k).push(a@[i + k]));
        assert(b@.subrange(j as int, j + k + 1) =~= b@.subrange(j as int, j + k).push(b@[j + k]));
        k = k + 1;
    }
    true
}

/// `a` and `b` are the same text.
pub fn same_text(a: &str, b: &str) -> (r: bool)
    ensures
        r == (a@ == b@),
{
    let la: usize = a.unicode_len();
    let lb: usize = b.unicode_len();
    if la != lb {
        return false;
    }
    let r = same_run(a, 0, b, 0, la);
    assert(a@.subrange(0, la as int) =~= a@);
    assert(b@.subrange(0, lb as int) =~= b@);
    r
}

/// `s` ends with `suffix`.
pub fn has_suffix(s: &str, suffix: &str) -> (r: bool)
    ensures
        r == ends_with(s@, suffix@),
{
    let ls: usize = s.unicode_len();
    let lx: usize = suffix.unicode_len();
    if ls < lx {
        return false;
    }
    let r = same_run(s, ls - lx, suffix, 0, lx);
    assert(suffix@.subrange(0, lx as int) =~= suffix@);
    r
}

/// `needle` occurs somewhere in `s`; the empty text occurs in every text.
pub fn has_infix(s: &str, needle: &str) -> (r: bool)
    ensures
        r == contains(s@, needle@),
{
    let ls: usize = s.unicode_len();
    let ln: usize = needle.unicode_len();
    if ls < ln {
        assert(!contains(s@, needle@));
        return false;
    }
    assert(needle@.subrange(0, ln as int) =~= needle@);
    let last: usize = ls - ln;
    let mut i: usize = 0;
    loop
        invariant
            i <= last,
            last == ls - ln,
            ls == s@.len(),
            ln == needle@.len(),
            needle@.subrange(0, ln as int) == needle@,
            forall|j: int| 0 <= j < i ==> !occurs_at(s@, needle@, j),
        decreases last - i,
    {
        if same_run(s, i, needle, 0, ln) {
            assert(occurs_at(s@, needle@, i as int));
            return true;
        }
        if i == last {
            assert forall|j: int| !occurs_at(s@, needle@, j) by {
                if 0 <= j < i {
                }
            }
            return false;
        }
        i = i + 1;
    }
}

} // verus!
