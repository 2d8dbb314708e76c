//! The line classifier.
//!
//! A dump line encodes its nesting depth in a decoration run of pipes and
//! spaces that ends in a branch marker — a pipe or backtick followed by a
//! dash — after which the declaration keyword stands as a run of letters.
//! The classifier finds the leftmost branch marker, widens the match
//! backward over the decoration run and forward over the keyword letters,
//! and derives the depth as half the decorated width, each nesting level
//! contributing two decoration characters.
//!
//! A line with no branch marker, or with no letter after the dash, does
//! not classify; the rest of the pipeline ignores such a line entirely.

use vstd::prelude::*;
use crate::text::{
    is_decor_char,
    is_marker_char,
    run_end,
    run_end_x,
    lemma_run_end_bounds,
    CharClass,
};

verus! {

/// A branch marker sits at index `j`: a dash preceded by a pipe or
/// backtick.
pub open spec fn marker_at(s: Seq<char>, j: int) -> bool {
    &&& 1 <= j < s.len()
    &&& s[j] == '-'
    &&& is_marker_char(s[j - 1])
}

/// The least index `j' >= j` holding a branch marker, if any.
pub open spec fn marker_scan(s: Seq<char>, j: int) -> Option<int>
    decreases s.len() - j,
{
    if j < 0 || j >= s.len() {
        Option::None
    } else if marker_at(s, j) {
        Option::Some(j)
    } else {
        marker_scan(s, j + 1)
    }
}

pub proof fn lemma_marker_scan(s: Seq<char>, j: int)
    requires
        0 <= j <= s.len(),
    ensures
        marker_scan(s, j) is Some ==> {
            let m = marker_scan(s, j)->Some_0;
            &&& j <= m < s.len()
            &&& marker_at(s, m)
            &&& forall|k: int| j <= k < m ==> !marker_at(s, k)
        },
        marker_scan(s, j) is None ==> forall|k: int| j <= k ==> !marker_at(s, k),
    decreases s.len() - j,
{
    if j < s.len() && !marker_at(s, j) {
        lemma_marker_scan(s, j + 1);
    }
}

/// The start of the maximal decoration run that ends just before `k`:
/// the least index `i` such that every character in `[i, k)` is a pipe
/// or a space.
pub open spec fn decor_start(s: Seq<char>, k: int) -> int
    decreases k,
{
    if 0 < k && k <= s.len() && is_decor_char(s[k - 1]) {
        decor_start(s, k - 1)
    } else {
        k
    }
}

pub proof fn lemma_decor_start(s: Seq<char>, k: int)
    requires
        0 <= k <= s.len(),
    ensures
        0 <= decor_start(s, k) <= k,
        forall|j: int| decor_start(s, k) <= j < k ==> is_decor_char(s[j]),
        decor_start(s, k) > 0 ==> !is_decor_char(s[decor_start(s, k) - 1]),
    decreases k,
{
    if 0 < k && is_decor_char(s[k - 1]) {
        lemma_decor_start(s, k - 1);
    }
}

/// The line classifies: it holds a branch marker, and at least one letter
/// follows the dash of the leftmost one.
pub open spec fn classify_some(s: Seq<char>) -> bool {
    match marker_scan(s, 0) {
        Option::Some(j) => run_end(s, j + 1, CharClass::Alpha) > j + 1,
        Option::None => false,
    }
}

/// The index of the dash of the leftmost branch marker.
pub open spec fn cls_marker(s: Seq<char>) -> int {
    match marker_scan(s, 0) {
        Option::Some(j) => j,
        Option::None => 0,
    }
}

/// The start of the matched span: the decoration run is widened backward
/// from the marker as far as pipes and spaces reach.
pub open spec fn cls_start(s: Seq<char>) -> int {
    decor_start(s, cls_marker(s) - 1)
}

/// The end of the matched span: the keyword letters are taken greedily
/// after the dash.
pub open spec fn cls_kw_end(s: Seq<char>) -> int {
    run_end(s, cls_marker(s) + 1, CharClass::Alpha)
}

/// The declaration keyword: the run of letters after the dash.
pub open spec fn cls_keyword(s: Seq<char>) -> Seq<char> {
    s.subrange(cls_marker(s) + 1, cls_kw_end(s))
}

/// The whole matched span, decoration included.
pub open spec fn cls_matched(s: Seq<char>) -> Seq<char> {
    s.subrange(cls_start(s), cls_kw_end(s))
}

/// The nesting depth: half the width of the decoration in front of the
/// keyword, rounding down when a malformed decoration has odd width.
pub open spec fn cls_level(s: Seq<char>) -> int {
    (cls_marker(s) + 1 - cls_start(s)) / 2
}

pub proof fn lemma_classify_bounds(s: Seq<char>)
    requires
        classify_some(s),
    ensures
        1 <= cls_marker(s) < s.len(),
        0 <= cls_start(s) <= cls_marker(s) - 1,
        cls_marker(s) + 1 < cls_kw_end(s) <= s.len(),
        1 <= cls_level(s),
        cls_level(s) <= s.len(),
{
    lemma_marker_scan(s, 0);
    let j = cls_marker(s);
    lemma_decor_start(s, j - 1);
    lemma_run_end_bounds(s, j + 1, CharClass::Alpha);
}

/// The classification of one line, as index spans into its characters.
pub struct Classification {
    /// Start of the matched span.
    pub start: usize,
    /// Index of the dash of the branch marker.
    pub marker: usize,
    /// End of the matched span and of the keyword.
    pub kw_end: usize,
    /// Derived nesting depth.
    pub level: usize,
}

/// Classifies one line: finds the leftmost branch marker, widens the
/// match over decoration and keyword, and derives the depth.
pub fn classify_x(v: &Vec<char>) -> (r: Option<Classification>)
    ensures
        (r is Some) == classify_some(v@),
        r matches Some(c) ==> {
            &&& c.start == cls_start(v@)
            &&& c.marker == cls_marker(v@)
            &&& c.kw_end == cls_kw_end(v@)
            &&& c.level == cls_level(v@)
            &&& 1 <= c.marker < v@.len()
            &&& c.start <= c.marker - 1
            &&& c.marker + 1 < c.kw_end <= v@.len()
            &&& 1 <= c.level
        },
{
    let n = v.len();
    let mut j: usize = 0;
    let mut found: bool = false;
    while j < n && !found
        invariant
            0 <= j <= n,
            n == v@.len(),
            marker_scan(v@, 0) == marker_scan(v@, j as int),
            found ==> (j < n && marker_at(v@, j as int)),
            !found ==> forall|k: int| 0 <= k < j ==> !marker_at(v@, k),
        decreases n - j + (if found {
            0int
        } else {
            1int
        }),
    {
        if j >= 1 && v[j] == '-' && (v[j - 1] == '|' || v[j - 1] == '`') {
            found = true;
        } else {
            j = j + 1;
        }
    }
    if !found {
        return Option::None;
    }
    proof {
        lemma_marker_scan(v@, 0);
        assert(marker_scan(v@, j as int) == Option::Some(j as int));
        assert(cls_marker(v@) == j as int);
    }
    // Widen backward over the decoration run.
    let mut start: usize = j - 1;
    while start > 0 && (v[start - 1] == '|' || v[start - 1] == ' ')
        invariant
            0 <= start <= j - 1,
            j < v@.len(),
            decor_start(v@, j - 1) == decor_start(v@, start as int),
        decreases start,
    {
        start = start - 1;
    }
    proof {
        assert(decor_start(v@, start as int) == start as int);
    }
    // Take the keyword letters greedily after the dash.
    let kw_end = run_end_x(v, j + 1, CharClass::Alpha);
    if kw_end == j + 1 {
        return Option::None;
    }
    let level = (j + 1 - start) / 2;
    proof {
        lemma_classify_bounds(v@);
    }
    Option::Some(Classification { start, marker: j, kw_end, level })
}

} // verus!
