//! The keyword-specific extraction patterns.
//!
//! Once a line is classified, the declaration builder re-examines its text
//! with a stricter pattern for the keyword at hand:
//!
//! - a record definition: `class`/`struct`, a name, then ` definition`;
//! - an inheritance clause: a name between single quotes;
//! - a field declaration: a name, a space, then a quoted type text;
//! - a method declaration: the same shape, optionally preceded by the
//!   usage marker `used `.
//!
//! Every pattern is found at its leftmost occurrence; a line on which the
//! stricter pattern fails is ignored.

use vstd::prelude::*;
use crate::text::{
    is_word_char,
    run_end,
    run_end_x,
    lemma_run_end_bounds,
    space_scan,
    space_scan_x,
    lemma_space_scan_bounds,
    starts_at,
    starts_at_x,
    str_to_char_vec,
    CharClass,
};

verus! {

/// The text opening a class definition.
pub open spec fn class_intro() -> Seq<char> {
    "class "@
}

/// The text opening a struct definition.
pub open spec fn struct_intro() -> Seq<char> {
    "struct "@
}

/// The text that must follow a record name for the line to count as a
/// definition rather than a mere forward reference.
pub open spec fn def_suffix() -> Seq<char> {
    " definition"@
}

/// A record definition occurs at `i`: the opening text, a nonempty name
/// of word characters, then the definition suffix.
pub open spec fn def_match_at(s: Seq<char>, intro: Seq<char>, i: int) -> bool {
    let lo = i + intro.len();
    let hi = run_end(s, lo, CharClass::Word);
    &&& starts_at(s, i, intro)
    &&& hi > lo
    &&& starts_at(s, hi, def_suffix())
}

/// The least index `i' >= i` where a record definition occurs, if any.
pub open spec fn def_scan(s: Seq<char>, intro: Seq<char>, i: int) -> Option<int>
    decreases s.len() - i,
{
    if i < 0 || i >= s.len() {
        Option::None
    } else if def_match_at(s, intro, i) {
        Option::Some(i)
    } else {
        def_scan(s, intro, i + 1)
    }
}

pub proof fn lemma_def_scan(s: Seq<char>, intro: Seq<char>, i: int)
    requires
        0 <= i <= s.len(),
    ensures
        def_scan(s, intro, i) is Some ==> {
            let m = def_scan(s, intro, i)->Some_0;
            &&& i <= m < s.len()
            &&& def_match_at(s, intro, m)
            &&& forall|k: int| i <= k < m ==> !def_match_at(s, intro, k)
        },
        def_scan(s, intro, i) is None ==> forall|k: int|
            i <= k < s.len() ==> !def_match_at(s, intro, k),
    decreases s.len() - i,
{
    if i < s.len() && !def_match_at(s, intro, i) {
        lemma_def_scan(s, intro, i + 1);
    }
}

/// The name of the first record definition on the line.
pub open spec fn def_name(s: Seq<char>, intro: Seq<char>) -> Seq<char> {
    let i = def_scan(s, intro, 0)->Some_0;
    let lo = i + intro.len();
    s.subrange(lo, run_end(s, lo, CharClass::Word))
}

/// Finds the first record definition opened by `intro` and returns the
/// span of its name.
pub fn def_find_x(v: &Vec<char>, intro: &Vec<char>) -> (r: Option<(usize, usize)>)
    ensures
        (r is Some) == (def_scan(v@, intro@, 0) is Some),
        r matches Some(sp) ==> {
            &&& sp.0 <= sp.1 <= v@.len()
            &&& v@.subrange(sp.0 as int, sp.1 as int) == def_name(v@, intro@)
        },
{
    let n = v.len();
    let sfx = str_to_char_vec(" definition");
    let mut i: usize = 0;
    while i < n
        invariant
            0 <= i <= n,
            n == v@.len(),
            sfx@ == def_suffix(),
            def_scan(v@, intro@, 0) == def_scan(v@, intro@, i as int),
            forall|k: int| 0 <= k < i ==> !def_match_at(v@, intro@, k),
        decreases n - i,
    {
        if starts_at_x(v, i, intro) {
            let lo = i + intro.len();
            let hi = run_end_x(v, lo, CharClass::Word);
            if hi > lo && starts_at_x(v, hi, &sfx) {
                proof {
                    assert(def_match_at(v@, intro@, i as int));
                    assert(def_scan(v@, intro@, i as int) == Option::Some(i as int));
                }
                return Option::Some((lo, hi));
            }
        }
        proof {
            assert(!def_match_at(v@, intro@, i as int));
        }
        i = i + 1;
    }
    Option::None
}

/// A quoted name occurs at `i`: a single quote, a possibly empty run of
/// word characters, then a single quote.
pub open spec fn quoted_at(s: Seq<char>, i: int) -> bool {
    let w = run_end(s, i + 1, CharClass::Word);
    &&& 0 <= i < s.len()
    &&& s[i] == '\''
    &&& w < s.len()
    &&& s[w] == '\''
}

/// The least index `i' >= i` where a quoted name occurs, if any.
pub open spec fn quoted_scan(s: Seq<char>, i: int) -> Option<int>
    decreases s.len() - i,
{
    if i < 0 || i >= s.len() {
        Option::None
    } else if quoted_at(s, i) {
        Option::Some(i)
    } else {
        quoted_scan(s, i + 1)
    }
}

pub proof fn lemma_quoted_scan(s: Seq<char>, i: int)
    requires
        0 <= i <= s.len(),
    ensures
        quoted_scan(s, i) is Some ==> {
            let m = quoted_scan(s, i)->Some_0;
            &&& i <= m < s.len()
            &&& quoted_at(s, m)
            &&& forall|k: int| i <= k < m ==> !quoted_at(s, k)
        },
        quoted_scan(s, i) is None ==> forall|k: int| i <= k < s.len() ==> !quoted_at(s, k),
    decreases s.len() - i,
{
    if i < s.len() && !quoted_at(s, i) {
        lemma_quoted_scan(s, i + 1);
    }
}

/// The text between the quotes of the first quoted name on the line.
pub open spec fn quoted_inner(s: Seq<char>) -> Seq<char> {
    let i = quoted_scan(s, 0)->Some_0;
    s.subrange(i + 1, run_end(s, i + 1, CharClass::Word))
}

/// Finds the first quoted name and returns the span between its quotes.
pub fn quoted_find_x(v: &Vec<char>) -> (r: Option<(usize, usize)>)
    ensures
        (r is Some) == (quoted_scan(v@, 0) is Some),
        r matches Some(sp) ==> {
            &&& sp.0 <= sp.1 <= v@.len()
            &&& v@.subrange(sp.0 as int, sp.1 as int) == quoted_inner(v@)
        },
{
    let n = v.len();
    let mut i: usize = 0;
    while i < n
        invariant
            0 <= i <= n,
            n == v@.len(),
            quoted_scan(v@, 0) == quoted_scan(v@, i as int),
            forall|k: int| 0 <= k < i ==> !quoted_at(v@, k),
        decreases n - i,
    {
        if v[i] == '\'' {
            let w = run_end_x(v, i + 1, CharClass::Word);
            if w < n && v[w] == '\'' {
                proof {
                    assert(quoted_at(v@, i as int));
                    assert(quoted_scan(v@, i as int) == Option::Some(i as int));
                }
                return Option::Some((i + 1, w));
            }
        }
        proof {
            assert(!quoted_at(v@, i as int));
        }
        i = i + 1;
    }
    Option::None
}

/// A declaration core occurs at `i`: a nonempty run of word characters,
/// a space, then at least one quoted signature character closed by a
/// second quote.
pub open spec fn simple_at(s: Seq<char>, i: int) -> bool {
    let w = run_end(s, i, CharClass::Word);
    let e = run_end(s, w + 2, CharClass::Sig);
    &&& 0 <= i < s.len()
    &&& is_word_char(s[i])
    &&& w + 1 < s.len()
    &&& s[w] == ' '
    &&& s[w + 1] == '\''
    &&& e > w + 2
    &&& e < s.len()
    &&& s[e] == '\''
}

/// The end of the name of a declaration core at `i`.
pub open spec fn simple_name_end(s: Seq<char>, i: int) -> int {
    run_end(s, i, CharClass::Word)
}

/// The end of the quoted signature text of a declaration core at `i`.
pub open spec fn simple_sig_end(s: Seq<char>, i: int) -> int {
    run_end(s, simple_name_end(s, i) + 2, CharClass::Sig)
}

pub proof fn lemma_simple_at_bounds(s: Seq<char>, i: int)
    requires
        simple_at(s, i),
    ensures
        i < simple_name_end(s, i),
        simple_name_end(s, i) + 2 < simple_sig_end(s, i),
        simple_sig_end(s, i) < s.len(),
{
    lemma_run_end_bounds(s, i, CharClass::Word);
    lemma_run_end_bounds(s, simple_name_end(s, i) + 2, CharClass::Sig);
}

/// Decides whether a declaration core occurs at `i`.
pub fn simple_at_x(v: &Vec<char>, i: usize) -> (r: bool)
    ensures
        r == simple_at(v@, i as int),
{
    let n = v.len();
    if i >= n {
        return false;
    }
    let cw = v[i];
    if !(('a' <= cw && cw <= 'z') || ('A' <= cw && cw <= 'Z') || ('0' <= cw && cw <= '9') || cw
        == '_') {
        return false;
    }
    let w = run_end_x(v, i, CharClass::Word);
    if w >= n || v[w] != ' ' {
        return false;
    }
    if w + 1 >= n || v[w + 1] != '\'' {
        return false;
    }
    let e = run_end_x(v, w + 2, CharClass::Sig);
    e > w + 2 && e < n && v[e] == '\''
}

/// A field declaration occurs at `i`: a declaration core.
pub open spec fn var_scan(s: Seq<char>, i: int) -> Option<int>
    decreases s.len() - i,
{
    if i < 0 || i >= s.len() {
        Option::None
    } else if simple_at(s, i) {
        Option::Some(i)
    } else {
        var_scan(s, i + 1)
    }
}

pub proof fn lemma_var_scan(s: Seq<char>, i: int)
    requires
        0 <= i <= s.len(),
    ensures
        var_scan(s, i) is Some ==> {
            let m = var_scan(s, i)->Some_0;
            &&& i <= m < s.len()
            &&& simple_at(s, m)
            &&& forall|k: int| i <= k < m ==> !simple_at(s, k)
        },
        var_scan(s, i) is None ==> forall|k: int| i <= k < s.len() ==> !simple_at(s, k),
    decreases s.len() - i,
{
    if i < s.len() && !simple_at(s, i) {
        lemma_var_scan(s, i + 1);
    }
}

/// The name of the first field declaration on the line.
pub open spec fn var_name(s: Seq<char>) -> Seq<char> {
    let i = var_scan(s, 0)->Some_0;
    s.subrange(i, simple_name_end(s, i))
}

/// The type text of the first field declaration on the line: the quoted
/// text cut at its first space, the cut preserving how the declaration
/// text splits into space-separated tokens.
pub open spec fn var_type(s: Seq<char>) -> Seq<char> {
    let i = var_scan(s, 0)->Some_0;
    let w = simple_name_end(s, i);
    let e = simple_sig_end(s, i);
    s.subrange(w + 2, space_scan(s, w + 2, e))
}

/// Finds the first field declaration and returns the spans of its name
/// and of its type text.
pub fn var_find_x(v: &Vec<char>) -> (r: Option<((usize, usize), (usize, usize))>)
    ensures
        (r is Some) == (var_scan(v@, 0) is Some),
        r matches Some(sp) ==> {
            &&& sp.0.0 <= sp.0.1 <= v@.len()
            &&& sp.1.0 <= sp.1.1 <= v@.len()
            &&& v@.subrange(sp.0.0 as int, sp.0.1 as int) == var_name(v@)
            &&& v@.subrange(sp.1.0 as int, sp.1.1 as int) == var_type(v@)
        },
{
    let n = v.len();
    let mut i: usize = 0;
    while i < n
        invariant
            0 <= i <= n,
            n == v@.len(),
            var_scan(v@, 0) == var_scan(v@, i as int),
            forall|k: int| 0 <= k < i ==> !simple_at(v@, k),
        decreases n - i,
    {
        if simple_at_x(v, i) {
            proof {
                assert(var_scan(v@, i as int) == Option::Some(i as int));
                lemma_simple_at_bounds(v@, i as int);
            }
            let w = run_end_x(v, i, CharClass::Word);
            let e = run_end_x(v, w + 2, CharClass::Sig);
            let t = space_scan_x(v, w + 2, e);
            return Option::Some(((i, w), (w + 2, t)));
        }
        i = i + 1;
    }
    Option::None
}

/// The usage marker with its trailing space, as it opens a method match.
pub open spec fn used_intro() -> Seq<char> {
    "used "@
}

/// The usage marker as a bare space-separated token.
pub open spec fn used_tok() -> Seq<char> {
    "used"@
}

/// A method declaration occurs at `i`: a declaration core, optionally
/// preceded by the usage marker.
pub open spec fn method_at(s: Seq<char>, i: int) -> bool {
    (starts_at(s, i, used_intro()) && simple_at(s, i + 5)) || simple_at(s, i)
}

/// The least index `i' >= i` where a method declaration occurs, if any.
pub open spec fn method_scan(s: Seq<char>, i: int) -> Option<int>
    decreases s.len() - i,
{
    if i < 0 || i >= s.len() {
        Option::None
    } else if method_at(s, i) {
        Option::Some(i)
    } else {
        method_scan(s, i + 1)
    }
}

pub proof fn lemma_method_scan(s: Seq<char>, i: int)
    requires
        0 <= i <= s.len(),
    ensures
        method_scan(s, i) is Some ==> {
            let m = method_scan(s, i)->Some_0;
            &&& i <= m < s.len()
            &&& method_at(s, m)
            &&& forall|k: int| i <= k < m ==> !method_at(s, k)
        },
        method_scan(s, i) is None ==> forall|k: int| i <= k < s.len() ==> !method_at(s, k),
    decreases s.len() - i,
{
    if i < s.len() && !method_at(s, i) {
        lemma_method_scan(s, i + 1);
    }
}

/// The start of the declaration core of the first method match: past the
/// usage marker when the marked alternative applies, at the match start
/// otherwise.
pub open spec fn method_core(s: Seq<char>) -> int {
    let i = method_scan(s, 0)->Some_0;
    if starts_at(s, i, used_intro()) && simple_at(s, i + 5) {
        i + 5
    } else {
        i
    }
}

/// One past the closing quote of the first method match.
pub open spec fn method_end(s: Seq<char>) -> int {
    simple_sig_end(s, method_core(s)) + 1
}

/// The signature of the first method match: the text between its quotes,
/// spaces kept.
pub open spec fn method_sig(s: Seq<char>) -> Seq<char> {
    let c = method_core(s);
    s.subrange(simple_name_end(s, c) + 2, simple_sig_end(s, c))
}

/// The space-separated token `used` starts at `k` within the span
/// `[lo, hi)`.
pub open spec fn tok_used_at(s: Seq<char>, lo: int, hi: int, k: int) -> bool {
    &&& lo <= k
    &&& k + 4 <= hi
    &&& (k == lo || s[k - 1] == ' ')
    &&& space_scan(s, k, hi) == k + 4
    &&& s.subrange(k, k + 4) == used_tok()
}

/// Some space-separated token of the span `[lo, hi)` is exactly `used`.
pub open spec fn has_used_tok(s: Seq<char>, lo: int, hi: int) -> bool {
    exists|k: int| tok_used_at(s, lo, hi, k)
}

/// The first method match carries the usage marker: one of the
/// space-separated tokens of the matched text is exactly `used`.
pub open spec fn method_used(s: Seq<char>) -> bool {
    has_used_tok(s, method_scan(s, 0)->Some_0, method_end(s))
}

/// The name of the first method match: its second space-separated token
/// when the usage marker is present, its first otherwise.
pub open spec fn method_name(s: Seq<char>) -> Seq<char> {
    let lo = method_scan(s, 0)->Some_0;
    let hi = method_end(s);
    let t0 = space_scan(s, lo, hi);
    if method_used(s) {
        s.subrange(t0 + 1, space_scan(s, t0 + 1, hi))
    } else {
        s.subrange(lo, t0)
    }
}

/// Decides whether some space-separated token of `[lo, hi)` is exactly
/// `used`.
fn toks_used_x(v: &Vec<char>, lo: usize, hi: usize) -> (r: bool)
    requires
        lo <= hi,
        hi <= v@.len(),
    ensures
        r == has_used_tok(v@, lo as int, hi as int),
{
    let mut k: usize = lo;
    while k < hi
        invariant
            lo <= k <= hi,
            hi <= v@.len(),
            forall|k2: int| lo <= k2 < k ==> !tok_used_at(v@, lo as int, hi as int, k2),
        decreases hi - k,
    {
        let is_start = k == lo || v[k - 1] == ' ';
        let mut ok = false;
        if is_start && hi - k >= 4 {
            if v[k] == 'u' && v[k + 1] == 's' && v[k + 2] == 'e' && v[k + 3] == 'd' {
                let te = space_scan_x(v, k, hi);
                if te == k + 4 {
                    ok = true;
                }
            }
        }
        proof {
            reveal_strlit("used");
            if ok {
                assert(v@.subrange(k as int, k as int + 4) =~= used_tok());
                assert(tok_used_at(v@, lo as int, hi as int, k as int));
            } else {
                assert(!tok_used_at(v@, lo as int, hi as int, k as int)) by {
                    if tok_used_at(v@, lo as int, hi as int, k as int) {
                        assert(v@.subrange(k as int, k as int + 4) == used_tok());
                        assert(v@[k as int] == used_tok()[0]);
                        assert(v@[k as int + 1] == used_tok()[1]);
                        assert(v@[k as int + 2] == used_tok()[2]);
                        assert(v@[k as int + 3] == used_tok()[3]);
                    }
                }
            }
        }
        if ok {
            return true;
        }
        k = k + 1;
    }
    proof {
        assert forall|k2: int| !tok_used_at(v@, lo as int, hi as int, k2) by {
            if lo <= k2 < hi {
            }
        }
    }
    false
}

/// The extracted pieces of a method declaration, as index spans.
pub struct MethodMatch {
    /// Span of the method name.
    pub name_lo: usize,
    /// End of the method name span.
    pub name_hi: usize,
    /// Span of the quoted signature text.
    pub sig_lo: usize,
    /// End of the signature span.
    pub sig_hi: usize,
    /// The usage marker is present.
    pub used: bool,
}

/// Finds the first method declaration and returns the spans of its name
/// and signature and its usage flag.
pub fn method_find_x(v: &Vec<char>) -> (r: Option<MethodMatch>)
    ensures
        (r is Some) == (method_scan(v@, 0) is Some),
        r matches Some(m) ==> {
            &&& m.name_lo <= m.name_hi <= v@.len()
            &&& m.sig_lo <= m.sig_hi <= v@.len()
            &&& v@.subrange(m.name_lo as int, m.name_hi as int) == method_name(v@)
            &&& v@.subrange(m.sig_lo as int, m.sig_hi as int) == method_sig(v@)
            &&& m.used == method_used(v@)
        },
{
    let n = v.len();
    let uvec = str_to_char_vec("used ");
    proof {
        reveal_strlit("used ");
        assert(used_intro().len() == 5);
    }
    let mut i: usize = 0;
    while i < n
        invariant
            0 <= i <= n,
            n == v@.len(),
            uvec@ == used_intro(),
            used_intro().len() == 5,
            method_scan(v@, 0) == method_scan(v@, i as int),
            forall|k: int| 0 <= k < i ==> !method_at(v@, k),
        decreases n - i,
    {
        let b1 = if starts_at_x(v, i, &uvec) {
            simple_at_x(v, i + 5)
        } else {
            false
        };
        let found = b1 || simple_at_x(v, i);
        if found {
            proof {
                assert(method_at(v@, i as int));
                assert(method_scan(v@, i as int) == Option::Some(i as int));
            }
            let core = if b1 {
                i + 5
            } else {
                i
            };
            proof {
                assert(core as int == method_core(v@));
                lemma_simple_at_bounds(v@, core as int);
            }
            let w = run_end_x(v, core, CharClass::Word);
            let e = run_end_x(v, w + 2, CharClass::Sig);
            let hi = e + 1;
            let used = toks_used_x(v, i, hi);
            let t0 = space_scan_x(v, i, hi);
            proof {
                lemma_space_scan_bounds(v@, i as int, hi as int);
                assert(t0 <= w) by {
                    assert(v@[w as int] == ' ');
                }
            }
            if used {
                let t1 = space_scan_x(v, t0 + 1, hi);
                return Option::Some(
                    MethodMatch {
                        name_lo: t0 + 1,
                        name_hi: t1,
                        sig_lo: w + 2,
                        sig_hi: e,
                        used,
                    },
                );
            } else {
                return Option::Some(
                    MethodMatch { name_lo: i, name_hi: t0, sig_lo: w + 2, sig_hi: e, used },
                );
            }
        }
        i = i + 1;
    }
    Option::None
}

} // verus!
