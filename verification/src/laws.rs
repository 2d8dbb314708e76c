//! Laws of the parser, proved against the transition function.
//!
//! Each proof function states a property of whole-line or whole-pass
//! behaviour: lines that do not classify are ignored; method and field
//! declaration lines accumulate members on the most recently opened
//! record, in input order; access-specifier lines extend exactly one
//! inheritance list by exactly one name; a pass is a pure function of its
//! input lines; and a malformed odd-width decoration still yields a depth.

use vstd::prelude::*;
use crate::text::{contains_sub, starts_at};
use crate::classify::{classify_some, cls_level, cls_keyword, cls_marker, cls_start, lemma_classify_bounds};
use crate::patterns::{
    class_intro,
    struct_intro,
    def_scan,
    def_name,
    lemma_def_scan,
    def_match_at,
    quoted_scan,
    quoted_inner,
    var_scan,
    var_name,
    var_type,
    method_scan,
    method_name,
    method_sig,
    method_used,
};
use crate::model::{MethodView, VariableView, empty_inherit};
use crate::state::{
    StateView,
    init_state,
    update_path,
    path_contains,
    line_step,
    run_lines,
    kw_record,
    kw_field,
    kw_method,
    kw_public,
    kw_private,
    kw_protected,
    struct_token,
};

verus! {

/// The declaration keywords the builder dispatches on are pairwise
/// distinct pieces of text.
pub proof fn lemma_keywords_distinct()
    ensures
        kw_record() != kw_field(),
        kw_record() != kw_method(),
        kw_record() != kw_public(),
        kw_record() != kw_private(),
        kw_record() != kw_protected(),
        kw_field() != kw_method(),
        kw_field() != kw_public(),
        kw_field() != kw_private(),
        kw_field() != kw_protected(),
        kw_method() != kw_public(),
        kw_method() != kw_private(),
        kw_method() != kw_protected(),
        kw_public() != kw_private(),
        kw_public() != kw_protected(),
        kw_private() != kw_protected(),
{
    reveal_strlit("CXXRecordDecl");
    reveal_strlit("FieldDecl");
    reveal_strlit("CXXMethodDecl");
    reveal_strlit("public");
    reveal_strlit("private");
    reveal_strlit("protected");
    assert(kw_record().len() == 13 && kw_field().len() == 9 && kw_method().len() == 13);
    assert(kw_public().len() == 6 && kw_private().len() == 7 && kw_protected().len() == 9);
    assert(kw_record()[3] == 'R' && kw_method()[3] == 'M');
    assert(kw_field()[0] == 'F' && kw_protected()[0] == 'p');
    assert(kw_public()[1] == 'u' && kw_private()[1] == 'r' && kw_protected()[1] == 'r');
    assert(kw_private()[2] == 'i' && kw_protected()[2] == 'o');
}

/// A line that does not classify — no branch marker, or no keyword letter
/// after the dash — is ignored entirely: the catalogs, the ancestry path
/// and the pending-depth state are all left unchanged.
pub proof fn lemma_unmatched_line_ignored(s: StateView, line: Seq<char>)
    requires
        !classify_some(line),
    ensures
        line_step(s, line) == s,
{
}

/// A line whose decoration is malformed — odd width included — still
/// yields a nesting depth, by integer division of the decorated width:
/// the classifier never rejects a line for its decoration's width alone.
pub proof fn lemma_odd_decoration_usable(line: Seq<char>)
    requires
        classify_some(line),
    ensures
        cls_level(line) == (cls_marker(line) + 1 - cls_start(line)) / 2,
        1 <= cls_level(line),
{
    lemma_classify_bounds(line);
}

/// Two parsing passes over the same lines from fresh states end in the
/// same state: the parser's output is a pure function of its input, with
/// no state surviving from one run to the next.
pub proof fn lemma_rerun_identical(s1: StateView, s2: StateView, lines: Seq<Seq<char>>)
    requires
        s1 == init_state(),
        s2 == init_state(),
    ensures
        run_lines(s1, lines) == run_lines(s2, lines),
{
}

/// An access-specifier line carrying a quoted ancestor name, processed
/// while some class is open, appends exactly that one name to exactly the
/// inheritance list keyed by its keyword, on exactly the most recently
/// opened class: the other two lists, the class's name and methods, all
/// earlier classes, and the struct catalog are untouched.
pub proof fn lemma_inherit_appends_one(s: StateView, line: Seq<char>)
    requires
        classify_some(line),
        cls_keyword(line) == kw_public() || cls_keyword(line) == kw_private() || cls_keyword(line)
            == kw_protected(),
        quoted_scan(line, 0) is Some,
        s.classes.len() > 0,
    ensures
        ({
            let post = line_step(s, line);
            let kw = cls_keyword(line);
            let last = s.classes.last();
            let plast = post.classes.last();
            &&& post.structs == s.structs
            &&& post.classes.len() == s.classes.len()
            &&& forall|i: int| 0 <= i < s.classes.len() - 1 ==> post.classes[i] == s.classes[i]
            &&& plast.name == last.name
            &&& plast.methods == last.methods
            &&& (kw == kw_public() ==> plast.inherited.public == last.inherited.public.push(
                quoted_inner(line),
            ) && plast.inherited.private == last.inherited.private
                && plast.inherited.protected == last.inherited.protected)
            &&& (kw == kw_private() ==> plast.inherited.private == last.inherited.private.push(
                quoted_inner(line),
            ) && plast.inherited.public == last.inherited.public
                && plast.inherited.protected == last.inherited.protected)
            &&& (kw == kw_protected() ==> plast.inherited.protected
                == last.inherited.protected.push(quoted_inner(line))
                && plast.inherited.public == last.inherited.public
                && plast.inherited.private == last.inherited.private)
        }),
{
    lemma_keywords_distinct();
}

/// A field declaration line processed while the ancestry path — as it
/// stands after the line's own update — shows no open struct adds no
/// field anywhere: both catalogs are left unchanged.
pub proof fn lemma_field_line_without_struct(s: StateView, line: Seq<char>)
    requires
        classify_some(line),
        cls_keyword(line) == kw_field(),
        !path_contains(update_path(s.path, cls_level(line), line), struct_token()),
    ensures
        line_step(s, line).structs == s.structs,
        line_step(s, line).classes == s.classes,
{
    lemma_keywords_distinct();
}

/// A line declaring a method, as the builder recognizes one.
pub open spec fn is_method_line(line: Seq<char>) -> bool {
    &&& classify_some(line)
    &&& cls_keyword(line) == kw_method()
    &&& method_scan(line, 0) is Some
}

/// The method a method declaration line carries.
pub open spec fn method_of_line(line: Seq<char>) -> MethodView {
    MethodView { name: method_name(line), signature: method_sig(line), used: method_used(line) }
}

/// Method declaration lines accumulate: processed in order while some
/// class is open, they append their methods, in that same order, to the
/// most recently opened class, touching nothing else.
pub proof fn lemma_method_lines_accumulate(s: StateView, lines: Seq<Seq<char>>)
    requires
        s.classes.len() > 0,
        forall|i: int| 0 <= i < lines.len() ==> is_method_line(#[trigger] lines[i]),
    ensures
        ({
            let post = run_lines(s, lines);
            &&& post.structs == s.structs
            &&& post.classes.len() == s.classes.len()
            &&& forall|i: int| 0 <= i < s.classes.len() - 1 ==> post.classes[i] == s.classes[i]
            &&& post.classes.last().name == s.classes.last().name
            &&& post.classes.last().inherited == s.classes.last().inherited
            &&& post.classes.last().methods == s.classes.last().methods + lines.map_values(
                |l: Seq<char>| method_of_line(l),
            )
        }),
    decreases lines.len(),
{
    let f = |l: Seq<char>| method_of_line(l);
    if lines.len() == 0 {
        assert(s.classes.last().methods + lines.map_values(f) =~= s.classes.last().methods);
    } else {
        lemma_keywords_distinct();
        assert(is_method_line(lines[0]));
        let s1 = line_step(s, lines[0]);
        let rest = lines.drop_first();
        assert(forall|i: int| 0 <= i < rest.len() ==> is_method_line(#[trigger] rest[i]));
        lemma_method_lines_accumulate(s1, rest);
        let post = run_lines(s, lines);
        assert(post == run_lines(s1, rest));
        assert(s1.classes.last().methods == s.classes.last().methods.push(method_of_line(lines[0])));
        assert(post.classes.last().methods =~= s.classes.last().methods + lines.map_values(f)) by {
            assert(post.classes.last().methods == s1.classes.last().methods + rest.map_values(f));
            assert(forall|i: int| 0 <= i < rest.len() ==> rest.map_values(f)[i] == f(rest[i]));
            assert(forall|i: int| 0 <= i < lines.len() ==> lines.map_values(f)[i] == f(lines[i]));
        }
    }
}

/// One class-definition line followed by any number of method declaration
/// lines yields exactly one new class record, carrying the defined name,
/// empty inheritance lists, and exactly those methods in input order.
pub proof fn lemma_class_then_methods(s: StateView, cl: Seq<char>, lines: Seq<Seq<char>>)
    requires
        classify_some(cl),
        cls_keyword(cl) == kw_record(),
        def_scan(cl, class_intro(), 0) is Some,
        forall|i: int| 0 <= i < lines.len() ==> is_method_line(#[trigger] lines[i]),
    ensures
        ({
            let post = run_lines(s, seq![cl] + lines);
            &&& post.classes.len() == s.classes.len() + 1
            &&& forall|i: int| 0 <= i < s.classes.len() ==> post.classes[i] == s.classes[i]
            &&& post.classes.last().name == def_name(cl, class_intro())
            &&& post.classes.last().inherited == empty_inherit()
            &&& post.classes.last().methods == lines.map_values(|l: Seq<char>| method_of_line(l))
        }),
{
    let f = |l: Seq<char>| method_of_line(l);
    let whole = seq![cl] + lines;
    assert(whole.len() == lines.len() + 1);
    assert(whole[0] == cl);
    assert(whole.drop_first() =~= lines);
    let s1 = line_step(s, cl);
    assert(run_lines(s, whole) == run_lines(s1, lines));
    assert(s1.classes.len() == s.classes.len() + 1);
    lemma_method_lines_accumulate(s1, lines);
    let post = run_lines(s, whole);
    assert(post.classes.last().methods =~= lines.map_values(f)) by {
        assert(s1.classes.last().methods == Seq::<MethodView>::empty());
    }
}

/// A line declaring a field, as the builder recognizes one.
pub open spec fn is_field_line(line: Seq<char>) -> bool {
    &&& classify_some(line)
    &&& cls_keyword(line) == kw_field()
    &&& var_scan(line, 0) is Some
}

/// The field a field declaration line carries: its name, and its type
/// text with the quoting stripped.
pub open spec fn field_of_line(line: Seq<char>) -> VariableView {
    VariableView { name: var_name(line), variable_type: var_type(line) }
}

/// A struct-definition line contains the bare struct token, so it keeps
/// marking the ancestry path as long as it stays on it.
pub proof fn lemma_struct_def_contains_token(line: Seq<char>)
    requires
        def_scan(line, struct_intro(), 0) is Some,
    ensures
        contains_sub(line, struct_token()),
{
    lemma_def_scan(line, struct_intro(), 0);
    let i = def_scan(line, struct_intro(), 0)->Some_0;
    assert(def_match_at(line, struct_intro(), i));
    reveal_strlit("struct ");
    reveal_strlit("struct");
    assert(starts_at(line, i, struct_token())) by {
        assert(struct_token().len() == 6 && struct_intro().len() == 7);
        assert forall|k: int|
            0 <= k < struct_token().len() implies line[i + k] == #[trigger] struct_token()[k] by {
            assert(line[i + k] == struct_intro()[k]);
            if k == 0 {
            } else if k == 1 {
            } else if k == 2 {
            } else if k == 3 {
            } else if k == 4 {
            } else {
                assert(k == 5);
            }
        }
    }
    assert(contains_sub(line, struct_token()));
}

/// Field declaration lines accumulate: processed in order while a path
/// entry at index `d` shows an open struct and every line lies at least
/// two levels below `d`, they append their fields, in that same order, to
/// the most recently opened struct, touching nothing else. The depth
/// bound keeps the marking entry on the path throughout.
pub proof fn lemma_field_lines_accumulate(s: StateView, lines: Seq<Seq<char>>, d: int)
    requires
        s.structs.len() > 0,
        0 <= d < s.path.len(),
        contains_sub(s.path[d], struct_token()),
        forall|i: int|
            0 <= i < lines.len() ==> is_field_line(#[trigger] lines[i]) && cls_level(lines[i]) >= d
                + 2,
    ensures
        ({
            let post = run_lines(s, lines);
            &&& post.classes == s.classes
            &&& post.structs.len() == s.structs.len()
            &&& forall|i: int| 0 <= i < s.structs.len() - 1 ==> post.structs[i] == s.structs[i]
            &&& post.structs.last().name == s.structs.last().name
            &&& post.structs.last().variables == s.structs.last().variables + lines.map_values(
                |l: Seq<char>| field_of_line(l),
            )
        }),
    decreases lines.len(),
{
    let f = |l: Seq<char>| field_of_line(l);
    if lines.len() == 0 {
        assert(s.structs.last().variables + lines.map_values(f) =~= s.structs.last().variables);
    } else {
        lemma_keywords_distinct();
        assert(is_field_line(lines[0]));
        let line = lines[0];
        let lvl = cls_level(line);
        let p1 = update_path(s.path, lvl, line);
        assert(d < p1.len() && p1[d] == s.path[d]);
        assert(path_contains(p1, struct_token()));
        let s1 = line_step(s, line);
        assert(s1.path == p1);
        let rest = lines.drop_first();
        assert(forall|i: int|
            0 <= i < rest.len() ==> is_field_line(#[trigger] rest[i]) && cls_level(rest[i]) >= d
                + 2);
        lemma_field_lines_accumulate(s1, rest, d);
        let post = run_lines(s, lines);
        assert(post == run_lines(s1, rest));
        assert(s1.structs.last().variables == s.structs.last().variables.push(
            field_of_line(lines[0]),
        ));
        assert(post.structs.last().variables =~= s.structs.last().variables + lines.map_values(f))
            by {
            assert(post.structs.last().variables == s1.structs.last().variables + rest.map_values(
                f,
            ));
            assert(forall|i: int| 0 <= i < rest.len() ==> rest.map_values(f)[i] == f(rest[i]));
            assert(forall|i: int| 0 <= i < lines.len() ==> lines.map_values(f)[i] == f(lines[i]));
        }
    }
}

/// One struct-definition line followed by field declaration lines at a
/// deeper nesting level yields exactly one new struct record, carrying
/// the defined name and exactly those fields in input order, each with
/// its type text stripped of quoting.
pub proof fn lemma_struct_then_fields(s: StateView, st: Seq<char>, lines: Seq<Seq<char>>)
    requires
        classify_some(st),
        cls_keyword(st) == kw_record(),
        def_scan(st, struct_intro(), 0) is Some,
        forall|i: int|
            0 <= i < lines.len() ==> is_field_line(#[trigger] lines[i]) && cls_level(lines[i])
                >= cls_level(st) + 1,
    ensures
        ({
            let post = run_lines(s, seq![st] + lines);
            &&& post.structs.len() == s.structs.len() + 1
            &&& forall|i: int| 0 <= i < s.structs.len() ==> post.structs[i] == s.structs[i]
            &&& post.structs.last().name == def_name(st, struct_intro())
            &&& post.structs.last().variables == lines.map_values(
                |l: Seq<char>| field_of_line(l),
            )
        }),
{
    let f = |l: Seq<char>| field_of_line(l);
    let whole = seq![st] + lines;
    assert(whole[0] == st);
    assert(whole.drop_first() =~= lines);
    let s1 = line_step(s, st);
    assert(run_lines(s, whole) == run_lines(s1, lines));
    lemma_classify_bounds(st);
    let lvl = cls_level(st);
    let p1 = update_path(s.path, lvl, st);
    // The struct line itself becomes the deepest path entry, at an index
    // at most one below its own level, so lines at deeper levels leave it
    // in place.
    let d = p1.len() - 1;
    assert(p1[d] == st);
    assert(d <= lvl - 1);
    lemma_struct_def_contains_token(st);
    assert(contains_sub(p1[d], struct_token()));
    assert(s1.structs.len() == s.structs.len() + 1);
    assert(forall|i: int|
        0 <= i < lines.len() ==> is_field_line(#[trigger] lines[i]) && cls_level(lines[i]) >= d
            + 2);
    lemma_field_lines_accumulate(s1, lines, d);
    let post = run_lines(s, whole);
    assert(post.structs.last().variables =~= lines.map_values(f)) by {
        assert(s1.structs.last().variables == Seq::<VariableView>::empty());
    }
}

} // verus!
