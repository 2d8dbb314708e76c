//! Character classes and scanning primitives over sequences of characters.
//!
//! The dump grammar is defined over plain characters, so every matcher in
//! the crate is built from the spec functions here: character classes,
//! maximal runs of a class, first occurrence of a space, and literal
//! prefix tests.

use vstd::prelude::*;
use vstd::string::StrSliceExecFns;

verus! {

/// A character drawn inside the decoration run that precedes a branch
/// marker: a pipe or a space.
pub open spec fn is_decor_char(c: char) -> bool {
    c == '|' || c == ' '
}

/// The character standing immediately before the dash of a branch
/// marker: a pipe or a backtick.
pub open spec fn is_marker_char(c: char) -> bool {
    c == '|' || c == '`'
}

/// The classes of characters whose maximal runs the matchers need.
#[derive(Clone, Copy)]
pub enum CharClass {
    /// An ASCII letter: the alphabet of declaration keywords.
    Alpha,
    /// A letter, digit or underscore: the alphabet of declared names.
    Word,
    /// A character allowed inside a quoted type or signature text:
    /// letters, parentheses, spaces, commas and stars.
    Sig,
}

pub open spec fn is_alpha_char(c: char) -> bool {
    ('a' <= c && c <= 'z') || ('A' <= c && c <= 'Z')
}

pub open spec fn is_word_char(c: char) -> bool {
    is_alpha_char(c) || ('0' <= c && c <= '9') || c == '_'
}

pub open spec fn is_sig_char(c: char) -> bool {
    is_alpha_char(c) || c == '(' || c == ')' || c == ' ' || c == ',' || c == '*'
}

pub open spec fn in_class(cls: CharClass, c: char) -> bool {
    match cls {
        CharClass::Alpha => is_alpha_char(c),
        CharClass::Word => is_word_char(c),
        CharClass::Sig => is_sig_char(c),
    }
}

/// Decides membership in a character class.
pub fn in_class_x(cls: CharClass, c: char) -> (r: bool)
    ensures
        r == in_class(cls, c),
{
    match cls {
        CharClass::Alpha => ('a' <= c && c <= 'z') || ('A' <= c && c <= 'Z'),
        CharClass::Word => ('a' <= c && c <= 'z') || ('A' <= c && c <= 'Z') || ('0' <= c && c
            <= '9') || c == '_',
        CharClass::Sig => ('a' <= c && c <= 'z') || ('A' <= c && c <= 'Z') || c == '(' || c == ')'
            || c == ' ' || c == ',' || c == '*',
    }
}

/// The end of the maximal run of characters of class `cls` that starts at
/// `k`: the least index `r >= k` such that `r == s.len()` or `s[r]` is
/// outside the class.
pub open spec fn run_end(s: Seq<char>, k: int, cls: CharClass) -> int
    decreases s.len() - k,
{
    if 0 <= k && k < s.len() && in_class(cls, s[k]) {
        run_end(s, k + 1, cls)
    } else {
        k
    }
}

pub proof fn lemma_run_end_bounds(s: Seq<char>, k: int, cls: CharClass)
    requires
        0 <= k <= s.len(),
    ensures
        k <= run_end(s, k, cls) <= s.len(),
        forall|j: int| k <= j < run_end(s, k, cls) ==> in_class(cls, s[j]),
        run_end(s, k, cls) < s.len() ==> !in_class(cls, s[run_end(s, k, cls)]),
    decreases s.len() - k,
{
    if k < s.len() && in_class(cls, s[k]) {
        lemma_run_end_bounds(s, k + 1, cls);
    }
}

/// Computes `run_end` by a forward scan.
pub fn run_end_x(v: &Vec<char>, k: usize, cls: CharClass) -> (r: usize)
    requires
        k <= v@.len(),
    ensures
        r == run_end(v@, k as int, cls),
        k <= r <= v@.len(),
{
    proof {
        lemma_run_end_bounds(v@, k as int, cls);
    }
    let mut i: usize = k;
    while i < v.len() && in_class_x(cls, v[i])
        invariant
            k <= i <= v@.len(),
            run_end(v@, k as int, cls) == run_end(v@, i as int, cls),
        decreases v@.len() - i,
    {
        i = i + 1;
    }
    i
}

/// The first space at or after `k` and before `end`: the least index in
/// `[k, end)` holding a space, or `end` when there is none.
pub open spec fn space_scan(s: Seq<char>, k: int, end: int) -> int
    decreases end - k,
{
    if 0 <= k && k < end && k < s.len() && s[k] != ' ' {
        space_scan(s, k + 1, end)
    } else {
        k
    }
}

pub proof fn lemma_space_scan_bounds(s: Seq<char>, k: int, end: int)
    requires
        0 <= k <= end <= s.len(),
    ensures
        k <= space_scan(s, k, end) <= end,
        forall|j: int| k <= j < space_scan(s, k, end) ==> s[j] != ' ',
        space_scan(s, k, end) < end ==> s[space_scan(s, k, end)] == ' ',
    decreases end - k,
{
    if k < end && s[k] != ' ' {
        lemma_space_scan_bounds(s, k + 1, end);
    }
}

/// Computes `space_scan` by a forward scan.
pub fn space_scan_x(v: &Vec<char>, k: usize, end: usize) -> (r: usize)
    requires
        k <= end,
        end <= v@.len(),
    ensures
        r == space_scan(v@, k as int, end as int),
        k <= r <= end,
{
    proof {
        lemma_space_scan_bounds(v@, k as int, end as int);
    }
    let mut i: usize = k;
    while i < end && v[i] != ' '
        invariant
            k <= i <= end,
            end <= v@.len(),
            space_scan(v@, k as int, end as int) == space_scan(v@, i as int, end as int),
        decreases end - i,
    {
        i = i + 1;
    }
    i
}

/// The literal sequence `pat` occurs in `s` starting at index `i`.
pub open spec fn starts_at(s: Seq<char>, i: int, pat: Seq<char>) -> bool {
    &&& 0 <= i
    &&& i + pat.len() <= s.len()
    &&& forall|k: int| 0 <= k < pat.len() ==> s[i + k] == pat[k]
}

/// Decides whether `pat` occurs in `v` starting at `i`.
pub fn starts_at_x(v: &Vec<char>, i: usize, pat: &Vec<char>) -> (r: bool)
    ensures
        r == starts_at(v@, i as int, pat@),
{
    let n = v.len();
    if pat.len() > n || i > n - pat.len() {
        return false;
    }
    let mut j: usize = 0;
    while j < pat.len()
        invariant
            0 <= j <= pat@.len(),
            n == v@.len(),
            i + pat@.len() <= n,
            forall|k: int| 0 <= k < j ==> v@[i + k] == pat@[k],
        decreases pat@.len() - j,
    {
        if v[i + j] != pat[j] {
            return false;
        }
        j = j + 1;
    }
    true
}

/// The literal sequence `pat` occurs somewhere in `s`.
pub open spec fn contains_sub(s: Seq<char>, pat: Seq<char>) -> bool {
    exists|i: int| starts_at(s, i, pat)
}

/// Decides whether `pat` occurs anywhere in `v`.
pub fn contains_sub_x(v: &Vec<char>, pat: &Vec<char>) -> (r: bool)
    ensures
        r == contains_sub(v@, pat@),
{
    if pat.len() > v.len() {
        assert(forall|i: int| !starts_at(v@, i, pat@));
        return false;
    }
    let mut i: usize = 0;
    while i <= v.len() - pat.len()
        invariant
            pat@.len() <= v@.len(),
            0 <= i <= v@.len() - pat@.len() + 1,
            forall|k: int| 0 <= k < i ==> !starts_at(v@, k, pat@),
        decreases v@.len() - pat@.len() + 1 - i,
    {
        if starts_at_x(v, i, pat) {
            return true;
        }
        i = i + 1;
    }
    assert forall|k: int| !starts_at(v@, k, pat@) by {
        if 0 <= k < i {
        } else {
        }
    }
    false
}

/// Decides whether two character vectors hold the same characters.
pub fn char_vec_eq(a: &Vec<char>, b: &Vec<char>) -> (r: bool)
    ensures
        r == (a@ == b@),
{
    if a.len() != b.len() {
        return false;
    }
    let r = starts_at_x(a, 0, b);
    proof {
        if r {
            assert(a@ =~= b@);
        } else {
            if a@ == b@ {
                assert(starts_at(a@, 0, b@));
            }
        }
    }
    r
}

/// Copies the characters of a string slice into a vector, in order.
pub fn str_to_char_vec(s: &str) -> (v: Vec<char>)
    ensures
        v@ == s@,
{
    let n = s.unicode_len();
    let mut v: Vec<char> = Vec::new();
    let mut i: usize = 0;
    while i < n
        invariant
            0 <= i <= n,
            n == s@.len(),
            v@ == s@.subrange(0, i as int),
        decreases n - i,
    {
        let c = s.get_char(i);
        v.push(c);
        proof {
            assert(v@ =~= s@.subrange(0, i + 1));
        }
        i = i + 1;
    }
    proof {
        assert(s@.subrange(0, n as int) =~= s@);
    }
    v
}

} // verus!
