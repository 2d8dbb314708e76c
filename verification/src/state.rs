//! The parser state: the ancestry tracker, the declaration builder and the
//! model catalogs, advanced one line at a time.
//!
//! Every mutation is specified against `line_step`, a pure transition
//! function on the state's mathematical value, so a whole parsing pass is
//! the fold `run_lines` of that transition over the input lines.

use vstd::prelude::*;
use vstd::string::StrSliceExecFns;
use crate::text::{contains_sub, contains_sub_x, char_vec_eq, str_to_char_vec};
use crate::classify::{classify_some, cls_level, cls_keyword, cls_matched, classify_x};
use crate::patterns::{
    class_intro,
    struct_intro,
    def_scan,
    def_name,
    def_find_x,
    quoted_scan,
    quoted_inner,
    quoted_find_x,
    var_scan,
    var_name,
    var_type,
    var_find_x,
    method_scan,
    method_name,
    method_sig,
    method_used,
    method_find_x,
};
use crate::model::{
    Inherit,
    Method,
    Class,
    Variable,
    Struct,
    InheritView,
    MethodView,
    ClassView,
    VariableView,
    StructView,
    empty_inherit,
};

verus! {

/// The keyword of a record declaration line.
pub open spec fn kw_record() -> Seq<char> {
    "CXXRecordDecl"@
}

/// The keyword of a field declaration line.
pub open spec fn kw_field() -> Seq<char> {
    "FieldDecl"@
}

/// The keyword of a method declaration line.
pub open spec fn kw_method() -> Seq<char> {
    "CXXMethodDecl"@
}

/// The keyword of a public inheritance clause.
pub open spec fn kw_public() -> Seq<char> {
    "public"@
}

/// The keyword of a private inheritance clause.
pub open spec fn kw_private() -> Seq<char> {
    "private"@
}

/// The keyword of a protected inheritance clause.
pub open spec fn kw_protected() -> Seq<char> {
    "protected"@
}

/// The text whose presence on the ancestry path marks a field as owned by
/// a struct.
pub open spec fn struct_token() -> Seq<char> {
    "struct"@
}

/// The mathematical value of the parser state.
#[verifier::ext_equal]
pub struct StateView {
    /// The struct catalog, in first-appearance order.
    pub structs: Seq<StructView>,
    /// The class catalog, in first-appearance order.
    pub classes: Seq<ClassView>,
    /// The ancestry path: the raw text of each currently open ancestor
    /// line, shallowest first.
    pub path: Seq<Seq<char>>,
    /// The most recently matched decoration-and-keyword span.
    pub matched: Seq<char>,
    /// The most recently extracted keyword.
    pub keyword: Seq<char>,
    /// The most recently derived nesting depth.
    pub level: int,
}

/// The state a fresh parser starts from: empty catalogs, empty path.
pub open spec fn init_state() -> StateView {
    StateView {
        structs: Seq::empty(),
        classes: Seq::empty(),
        path: Seq::empty(),
        matched: Seq::empty(),
        keyword: Seq::empty(),
        level: 0,
    }
}

/// The ancestry update for a line at depth `level`: a line arriving at
/// exactly the current path length replaces the deepest entry; any other
/// depth cuts the path back to `level - 1` entries (a no-op when the path
/// is already shorter); the line itself is then appended.
pub open spec fn update_path(path: Seq<Seq<char>>, level: int, line: Seq<char>) -> Seq<Seq<char>> {
    let trimmed = if level == path.len() {
        if path.len() > 0 {
            path.drop_last()
        } else {
            path
        }
    } else if 0 <= level - 1 && level - 1 <= path.len() {
        path.subrange(0, level - 1)
    } else {
        path
    };
    trimmed.push(line)
}

/// Some entry of the ancestry path contains `pat` as a substring.
pub open spec fn path_contains(path: Seq<Seq<char>>, pat: Seq<char>) -> bool {
    exists|i: int| 0 <= i < path.len() && contains_sub(path[i], pat)
}

/// The effect of a record declaration line: a class definition opens a
/// new class record, a struct definition opens a new struct record, a
/// line that is neither (a mere forward reference) changes nothing.
pub open spec fn record_step(s: StateView, line: Seq<char>) -> StateView {
    let s1 = if def_scan(line, class_intro(), 0) is Some {
        StateView {
            classes: s.classes.push(
                ClassView {
                    name: def_name(line, class_intro()),
                    inherited: empty_inherit(),
                    methods: Seq::empty(),
                },
            ),
            ..s
        }
    } else {
        s
    };
    if def_scan(line, struct_intro(), 0) is Some {
        StateView {
            structs: s1.structs.push(
                StructView { name: def_name(line, struct_intro()), variables: Seq::empty() },
            ),
            ..s1
        }
    } else {
        s1
    }
}

/// The effect of a field declaration line: when the line carries a
/// declaration core, the ancestry path shows an open struct, and the
/// struct catalog is nonempty, the field is appended to the most recently
/// opened struct; otherwise nothing changes.
pub open spec fn field_step(s: StateView, line: Seq<char>) -> StateView {
    if var_scan(line, 0) is Some && path_contains(s.path, struct_token()) && s.structs.len() > 0 {
        let last = s.structs.last();
        let updated = StructView {
            name: last.name,
            variables: last.variables.push(
                VariableView { name: var_name(line), variable_type: var_type(line) },
            ),
        };
        StateView { structs: s.structs.update(s.structs.len() - 1, updated), ..s }
    } else {
        s
    }
}

/// The effect of a method declaration line: when the line carries a
/// method match and the class catalog is nonempty, the method is appended
/// to the most recently opened class — with no ancestry guard, unlike
/// fields; otherwise nothing changes.
pub open spec fn method_step(s: StateView, line: Seq<char>) -> StateView {
    if method_scan(line, 0) is Some && s.classes.len() > 0 {
        let last = s.classes.last();
        let updated = ClassView {
            name: last.name,
            inherited: last.inherited,
            methods: last.methods.push(
                MethodView {
                    name: method_name(line),
                    signature: method_sig(line),
                    used: method_used(line),
                },
            ),
        };
        StateView { classes: s.classes.update(s.classes.len() - 1, updated), ..s }
    } else {
        s
    }
}

/// The effect of an access-specifier line under keyword `kw`: when the
/// line carries a quoted ancestor name and the class catalog is nonempty,
/// that one name is appended to the inheritance list keyed by `kw` of the
/// most recently opened class; otherwise nothing changes.
pub open spec fn inherit_step(s: StateView, line: Seq<char>, kw: Seq<char>) -> StateView {
    if quoted_scan(line, 0) is Some && s.classes.len() > 0 {
        let nm = quoted_inner(line);
        let last = s.classes.last();
        let inh = if kw == kw_public() {
            InheritView { public: last.inherited.public.push(nm), ..last.inherited }
        } else if kw == kw_private() {
            InheritView { private: last.inherited.private.push(nm), ..last.inherited }
        } else if kw == kw_protected() {
            InheritView { protected: last.inherited.protected.push(nm), ..last.inherited }
        } else {
            last.inherited
        };
        let updated = ClassView { name: last.name, inherited: inh, methods: last.methods };
        StateView { classes: s.classes.update(s.classes.len() - 1, updated), ..s }
    } else {
        s
    }
}

/// The declaration builder's dispatch on the classified keyword.
pub open spec fn dispatch_step(s: StateView, line: Seq<char>) -> StateView {
    if s.keyword == kw_record() {
        record_step(s, line)
    } else if s.keyword == kw_field() {
        field_step(s, line)
    } else if s.keyword == kw_method() {
        method_step(s, line)
    } else if s.keyword == kw_public() || s.keyword == kw_private() || s.keyword
        == kw_protected() {
        inherit_step(s, line, s.keyword)
    } else {
        s
    }
}

/// The whole effect of one line: a line that does not classify is ignored
/// entirely; a line that does first updates the pending-depth state and
/// the ancestry path, then runs the declaration builder.
pub open spec fn line_step(s: StateView, line: Seq<char>) -> StateView {
    if classify_some(line) {
        let s1 = StateView {
            structs: s.structs,
            classes: s.classes,
            path: update_path(s.path, cls_level(line), line),
            matched: cls_matched(line),
            keyword: cls_keyword(line),
            level: cls_level(line),
        };
        dispatch_step(s1, line)
    } else {
        s
    }
}

/// A whole parsing pass: the fold of `line_step` over the lines in order.
pub open spec fn run_lines(s: StateView, lines: Seq<Seq<char>>) -> StateView
    decreases lines.len(),
{
    if lines.len() == 0 {
        s
    } else {
        run_lines(line_step(s, lines[0]), lines.drop_first())
    }
}

/// The parser state: the two model catalogs, the ancestry path, and the
/// pending-depth state of the most recently classified line.
pub struct State {
    pub struct_list: Vec<Struct>,
    pub class_list: Vec<Class>,
    pub tree_path: Vec<String>,
    pub matched_string: String,
    pub keyword: String,
    pub level: usize,
}

impl View for State {
    type V = StateView;

    open spec fn view(&self) -> StateView {
        StateView {
            structs: self.struct_list@.map_values(|x: Struct| x@),
            classes: self.class_list@.map_values(|x: Class| x@),
            path: self.tree_path.deep_view(),
            matched: self.matched_string@,
            keyword: self.keyword@,
            level: self.level as int,
        }
    }
}

impl State {
    /// A fresh parser: empty catalogs, empty ancestry path.
    pub fn new() -> (s: State)
        ensures
            s@ == init_state(),
    {
        let s = State {
            struct_list: Vec::new(),
            class_list: Vec::new(),
            tree_path: Vec::new(),
            matched_string: String::new(),
            keyword: String::new(),
            level: 0,
        };
        proof {
            assert(s@ =~~= init_state());
        }
        s
    }

    /// Scans the ancestry path, deepest entry first, for an entry that
    /// contains `keyword` as a substring.
    pub fn search_tree_path(&self, keyword: &str) -> (r: bool)
        ensures
            r == path_contains(self@.path, keyword@),
    {
        let kv = str_to_char_vec(keyword);
        let n = self.tree_path.len();
        let mut idx: usize = n;
        while idx > 0
            invariant
                0 <= idx <= n,
                n == self.tree_path@.len(),
                kv@ == keyword@,
                forall|i: int| idx <= i < n ==> !contains_sub(self@.path[i], keyword@),
            decreases idx,
        {
            idx = idx - 1;
            let entry = str_to_char_vec(self.tree_path[idx].as_str());
            proof {
                assert(entry@ == self@.path[idx as int]);
            }
            if contains_sub_x(&entry, &kv) {
                return true;
            }
        }
        false
    }

    /// Classifies one line, and on success records its matched span,
    /// keyword and depth and re-synchronizes the ancestry path.
    /// Returns whether the line classified; a line that did not is to be
    /// ignored entirely.
    pub fn initialize_state(&mut self, line: &String) -> (r: bool)
        ensures
            r == classify_some(line@),
            !r ==> final(self)@ == old(self)@,
            r ==> final(self)@ == (StateView {
                structs: old(self)@.structs,
                classes: old(self)@.classes,
                path: update_path(old(self)@.path, cls_level(line@), line@),
                matched: cls_matched(line@),
                keyword: cls_keyword(line@),
                level: cls_level(line@),
            }),
    {
        let chars = str_to_char_vec(line.as_str());
        let c = match classify_x(&chars) {
            Option::Some(c) => c,
            Option::None => {
                return false;
            },
        };
        self.matched_string = line.as_str().substring_char(c.start, c.kw_end).to_owned();
        self.keyword = line.as_str().substring_char(c.marker + 1, c.kw_end).to_owned();
        self.level = c.level;

        // Re-synchronize the ancestry path from the derived depth.
        let chain_len = self.tree_path.len();
        if self.level == chain_len {
            self.tree_path.pop();
        } else {
            self.tree_path.truncate(self.level - 1);
        }
        self.tree_path.push(line.clone());
        proof {
            assert(self@.path =~~= update_path(old(self)@.path, cls_level(line@), line@));
            assert(self@ =~~= (StateView {
                structs: old(self)@.structs,
                classes: old(self)@.classes,
                path: update_path(old(self)@.path, cls_level(line@), line@),
                matched: cls_matched(line@),
                keyword: cls_keyword(line@),
                level: cls_level(line@),
            }));
        }
        true
    }

    /// Handles a record declaration line: opens a new class record on a
    /// class definition, a new struct record on a struct definition, and
    /// ignores a line that is neither.
    pub fn process_record_decl(&mut self, line: &String)
        ensures
            final(self)@ == record_step(old(self)@, line@),
    {
        let chars = str_to_char_vec(line.as_str());

        // Matching specifically for a class definition.
        let civ = str_to_char_vec("class ");
        if let Option::Some((lo, hi)) = def_find_x(&chars, &civ) {
            let class = Class {
                name: line.as_str().substring_char(lo, hi).to_owned(),
                inherited: Inherit { public: Vec::new(), private: Vec::new(), protected: Vec::new() },
                methods: Vec::new(),
            };
            self.class_list.push(class);
        }

        // Matching specifically for a struct definition.
        let siv = str_to_char_vec("struct ");
        if let Option::Some((lo, hi)) = def_find_x(&chars, &siv) {
            let new_struct = Struct {
                name: line.as_str().substring_char(lo, hi).to_owned(),
                variables: Vec::new(),
            };
            self.struct_list.push(new_struct);
        }
        proof {
            assert(self@ =~~= record_step(old(self)@, line@));
        }
    }

    /// Handles a field declaration line: appends the extracted field to
    /// the most recently opened struct, but only when the ancestry path
    /// shows an open struct; with no declaration core, no open struct, or
    /// an empty struct catalog the line is a no-op.
    pub fn process_field_decl(&mut self, line: &String)
        ensures
            final(self)@ == field_step(old(self)@, line@),
    {
        let chars = str_to_char_vec(line.as_str());
        if let Option::Some(spans) = var_find_x(&chars) {
            let (name_span, type_span) = spans;
            let variable = Variable {
                name: line.as_str().substring_char(name_span.0, name_span.1).to_owned(),
                variable_type: line.as_str().substring_char(type_span.0, type_span.1).to_owned(),
            };
            if self.search_tree_path("struct") && self.struct_list.len() > 0 {
                let mut last_struct = self.struct_list.pop().unwrap();
                last_struct.variables.push(variable);
                self.struct_list.push(last_struct);
            }
        }
        proof {
            assert(self@ =~~= field_step(old(self)@, line@));
        }
    }

    /// Handles a method declaration line: appends the extracted method to
    /// the most recently opened class, with no ancestry guard; with no
    /// method match or an empty class catalog the line is a no-op.
    pub fn process_method_decl(&mut self, line: &String)
        ensures
            final(self)@ == method_step(old(self)@, line@),
    {
        let chars = str_to_char_vec(line.as_str());
        if let Option::Some(m) = method_find_x(&chars) {
            let method = Method {
                name: line.as_str().substring_char(m.name_lo, m.name_hi).to_owned(),
                signature: line.as_str().substring_char(m.sig_lo, m.sig_hi).to_owned(),
                used: m.used,
            };
            if self.class_list.len() > 0 {
                let mut last_class = self.class_list.pop().unwrap();
                last_class.methods.push(method);
                self.class_list.push(last_class);
            }
        }
        proof {
            assert(self@ =~~= method_step(old(self)@, line@));
        }
    }

    /// Handles an access-specifier line: appends the quoted ancestor name
    /// to the inheritance list keyed by the pending keyword of the most
    /// recently opened class; with no quoted name or an empty class
    /// catalog the line is a no-op.
    pub fn process_class_inherits(&mut self, line: &String)
        ensures
            final(self)@ == inherit_step(old(self)@, line@, old(self)@.keyword),
    {
        let chars = str_to_char_vec(line.as_str());
        if let Option::Some((lo, hi)) = quoted_find_x(&chars) {
            let inherited_from = line.as_str().substring_char(lo, hi).to_owned();
            if self.class_list.len() > 0 {
                let mut last = self.class_list.pop().unwrap();
                let kwv = str_to_char_vec(self.keyword.as_str());
                let pb = str_to_char_vec("public");
                let pv = str_to_char_vec("private");
                let pt = str_to_char_vec("protected");
                if char_vec_eq(&kwv, &pb) {
                    last.inherited.public.push(inherited_from);
                } else if char_vec_eq(&kwv, &pv) {
                    last.inherited.private.push(inherited_from);
                } else if char_vec_eq(&kwv, &pt) {
                    last.inherited.protected.push(inherited_from);
                }
                self.class_list.push(last);
            }
        }
        proof {
            assert(self@ =~~= inherit_step(old(self)@, line@, old(self)@.keyword));
        }
    }

    /// Processes one dump line: classifies it, updates the ancestry path,
    /// and dispatches to the handler for its keyword. A line that does
    /// not classify, or whose keyword is not a known declaration keyword,
    /// leaves the catalogs unchanged.
    pub fn process_line(&mut self, line: String)
        ensures
            final(self)@ == line_step(old(self)@, line@),
    {
        let classified = self.initialize_state(&line);
        if !classified {
            return;
        }
        let kwv = str_to_char_vec(self.keyword.as_str());
        let rec = str_to_char_vec("CXXRecordDecl");
        let fld = str_to_char_vec("FieldDecl");
        let mth = str_to_char_vec("CXXMethodDecl");
        let pb = str_to_char_vec("public");
        let pv = str_to_char_vec("private");
        let pt = str_to_char_vec("protected");
        if char_vec_eq(&kwv, &rec) {
            // A record declaration line: a struct, union or class.
            self.process_record_decl(&line);
        } else if char_vec_eq(&kwv, &fld) {
            // A field declaration line.
            self.process_field_decl(&line);
        } else if char_vec_eq(&kwv, &mth) {
            // A method of a class.
            self.process_method_decl(&line);
        } else if char_vec_eq(&kwv, &pb) || char_vec_eq(&kwv, &pv) || char_vec_eq(&kwv, &pt) {
            // An inheritance clause of a class.
            self.process_class_inherits(&line);
        }
    }
}

} // verus!
