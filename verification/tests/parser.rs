use astdump::{Class, Inherit, Method, State, Struct, Variable};

fn run(lines: &[&str]) -> State {
    let mut state = State::new();
    for line in lines {
        state.process_line(line.to_string());
    }
    state
}

#[test]
fn test_new_state_is_empty() {
    let state = State::new();
    assert_eq!(state.struct_list.len(), 0);
    assert_eq!(state.class_list.len(), 0);
    assert_eq!(state.tree_path.len(), 0);
    assert_eq!(state.level, 0);
}

#[test]
fn test_unmatched_lines_leave_catalogs_unchanged() {
    let state = run(&[
        "TranslationUnitDecl 0x7f0 <<invalid sloc>> <invalid sloc>",
        "just some prose with no branch marker",
        "",
        "|- ",
        "|-123",
    ]);
    assert_eq!(state.struct_list.len(), 0);
    assert_eq!(state.class_list.len(), 0);
}

#[test]
fn test_unmatched_line_after_class_changes_nothing() {
    let with_noise = run(&[
        "|-CXXRecordDecl 0x1 <a.cpp> line:1:7 class Widget definition",
        "no marker here at all",
    ]);
    let without_noise = run(&["|-CXXRecordDecl 0x1 <a.cpp> line:1:7 class Widget definition"]);
    assert_eq!(with_noise.class_list, without_noise.class_list);
    assert_eq!(with_noise.struct_list, without_noise.struct_list);
}

#[test]
fn test_class_with_methods_in_order() {
    let state = run(&[
        "|-CXXRecordDecl 0x1 <a.cpp> line:1:7 class Widget definition",
        "| |-CXXMethodDecl 0x2 <line:2:3> col:8 draw 'void ()'",
        "| |-CXXMethodDecl 0x3 <line:3:3> col:8 used resize 'void (int, int)'",
        "| `-CXXMethodDecl 0x4 <line:4:3> col:8 hide 'void ()'",
    ]);
    assert_eq!(state.class_list.len(), 1);
    let class = &state.class_list[0];
    assert_eq!(class.name, "Widget");
    assert_eq!(class.methods.len(), 3);
    assert_eq!(
        class.methods[0],
        Method { name: "draw".to_string(), signature: "void ()".to_string(), used: false }
    );
    assert_eq!(
        class.methods[1],
        Method {
            name: "resize".to_string(),
            signature: "void (int, int)".to_string(),
            used: true,
        }
    );
    assert_eq!(
        class.methods[2],
        Method { name: "hide".to_string(), signature: "void ()".to_string(), used: false }
    );
    assert_eq!(class.inherited.public.len(), 0);
    assert_eq!(class.inherited.private.len(), 0);
    assert_eq!(class.inherited.protected.len(), 0);
}

#[test]
fn test_struct_with_fields_in_order_and_quotes_stripped() {
    let state = run(&[
        "|-CXXRecordDecl 0x5 <b.cpp> line:1:8 struct Point definition",
        "| |-FieldDecl 0x6 <line:2:3> col:7 x 'int'",
        "| `-FieldDecl 0x7 <line:3:3> col:7 y 'int'",
    ]);
    assert_eq!(state.struct_list.len(), 1);
    let point = &state.struct_list[0];
    assert_eq!(point.name, "Point");
    assert_eq!(
        point.variables,
        vec![
            Variable { name: "x".to_string(), variable_type: "int".to_string() },
            Variable { name: "y".to_string(), variable_type: "int".to_string() },
        ]
    );
}

#[test]
fn test_field_type_is_cut_at_first_space() {
    // The type token is taken as the dump text splits on spaces, so a
    // multi-word type keeps only its first word, quoting stripped.
    let state = run(&[
        "|-CXXRecordDecl 0x5 <b.cpp> line:1:8 struct Wide definition",
        "| `-FieldDecl 0x6 <line:2:3> col:7 w 'unsigned long'",
    ]);
    assert_eq!(state.struct_list[0].variables.len(), 1);
    assert_eq!(state.struct_list[0].variables[0].name, "w");
    assert_eq!(state.struct_list[0].variables[0].variable_type, "unsigned");
}

#[test]
fn test_access_specifiers_append_to_keyed_lists() {
    let state = run(&[
        "|-CXXRecordDecl 0x1 <a.cpp> line:1:7 class Derived definition",
        "| |-public 'BaseA'",
        "| |-public 'BaseB'",
        "| |-private 'BaseC'",
        "| `-protected 'BaseD'",
    ]);
    assert_eq!(state.class_list.len(), 1);
    let inh = &state.class_list[0].inherited;
    assert_eq!(inh.public, vec!["BaseA".to_string(), "BaseB".to_string()]);
    assert_eq!(inh.private, vec!["BaseC".to_string()]);
    assert_eq!(inh.protected, vec!["BaseD".to_string()]);
    assert_eq!(state.class_list[0].methods.len(), 0);
}

#[test]
fn test_nested_class_inherits_from_outer() {
    // Two class definitions, the second at a deeper level; the access
    // specifier is attributed to the most recently opened class.
    let state = run(&[
        "`-CXXRecordDecl 0x1 <a.cpp> line:1:7 class Foo definition",
        "| |-CXXRecordDecl 0x2 <line:2:3> col:9 class Bar definition",
        "| | |-public 'Foo'",
    ]);
    assert_eq!(state.class_list.len(), 2);
    assert_eq!(state.class_list[0].name, "Foo");
    assert_eq!(state.class_list[1].name, "Bar");
    assert_eq!(state.class_list[1].inherited.public, vec!["Foo".to_string()]);
    assert_eq!(state.class_list[0].inherited.public.len(), 0);
    assert_eq!(state.class_list[0].methods.len(), 0);
}

#[test]
fn test_field_without_open_struct_is_ignored() {
    // The ancestry path holds only a class, so the field is not modeled.
    let state = run(&[
        "|-CXXRecordDecl 0x1 <a.cpp> line:1:7 class Holder definition",
        "| `-FieldDecl 0x2 <line:2:3> col:7 z 'int'",
    ]);
    assert_eq!(state.struct_list.len(), 0);
    assert_eq!(state.class_list.len(), 1);
    assert_eq!(state.class_list[0].methods.len(), 0);
}

#[test]
fn test_field_under_forward_declared_struct_is_ignored() {
    // The path shows a struct, but no struct record was ever opened: the
    // line is skipped rather than aborting the run.
    let state = run(&[
        "|-CXXRecordDecl 0x1 <a.cpp> col:8 struct Fwd",
        "| `-FieldDecl 0x2 <line:2:3> col:7 z 'int'",
    ]);
    assert_eq!(state.struct_list.len(), 0);
    assert_eq!(state.class_list.len(), 0);
}

#[test]
fn test_forward_reference_opens_no_record() {
    let state = run(&[
        "|-CXXRecordDecl 0x1 <a.cpp> col:7 class Fwd",
        "|-CXXRecordDecl 0x2 <a.cpp> col:8 struct Also",
    ]);
    assert_eq!(state.class_list.len(), 0);
    assert_eq!(state.struct_list.len(), 0);
}

#[test]
fn test_method_without_open_class_is_ignored() {
    let state = run(&["|-CXXMethodDecl 0x1 <a.cpp> col:8 orphan 'void ()'"]);
    assert_eq!(state.class_list.len(), 0);
    assert_eq!(state.struct_list.len(), 0);
}

#[test]
fn test_access_specifier_without_open_class_is_ignored() {
    let state = run(&["|-public 'Nowhere'"]);
    assert_eq!(state.class_list.len(), 0);
}

#[test]
fn test_access_specifier_without_quoted_name_is_ignored() {
    let state = run(&[
        "|-CXXRecordDecl 0x1 <a.cpp> line:1:7 class Derived definition",
        "| `-public Base",
    ]);
    assert_eq!(state.class_list[0].inherited.public.len(), 0);
    assert_eq!(state.class_list[0].inherited.private.len(), 0);
    assert_eq!(state.class_list[0].inherited.protected.len(), 0);
}

#[test]
fn test_odd_width_decoration_still_classifies() {
    // A malformed three-character decoration still yields a depth by
    // integer division, and the record is still cataloged.
    let state = run(&[" `-CXXRecordDecl 0x1 <a.cpp> line:1:8 struct Odd definition"]);
    assert_eq!(state.struct_list.len(), 1);
    assert_eq!(state.struct_list[0].name, "Odd");
    assert_eq!(state.level, 1);
}

#[test]
fn test_rerun_yields_identical_catalogs() {
    let lines: &[&str] = &[
        "|-CXXRecordDecl 0x1 <a.cpp> line:1:7 class Widget definition",
        "| |-CXXMethodDecl 0x2 <line:2:3> col:8 used draw 'void ()'",
        "| `-public 'Base'",
        "|-CXXRecordDecl 0x5 <b.cpp> line:9:8 struct Point definition",
        "| `-FieldDecl 0x6 <line:10:3> col:7 x 'int'",
        "noise line without any marker",
    ];
    let first = run(lines);
    let second = run(lines);
    assert_eq!(first.class_list, second.class_list);
    assert_eq!(first.struct_list, second.struct_list);
}

#[test]
fn test_used_marker_sets_flag_and_second_token_names_method() {
    let state = run(&[
        "|-CXXRecordDecl 0x1 <a.cpp> line:1:7 class Widget definition",
        "| `-CXXMethodDecl 0x2 <line:2:3> col:8 used getArea 'long ()'",
    ]);
    let method = &state.class_list[0].methods[0];
    assert_eq!(method.name, "getArea");
    assert_eq!(method.signature, "long ()");
    assert!(method.used);
}

#[test]
fn test_deeper_then_shallower_fields_still_attach() {
    // Depth jumps back by more than one level; the struct line stays on
    // the path and keeps owning the later field.
    let state = run(&[
        "|-CXXRecordDecl 0x1 <a.cpp> line:1:8 struct Deep definition",
        "| | |-FieldDecl 0x2 <line:2:3> col:7 a 'int'",
        "| `-FieldDecl 0x3 <line:3:3> col:7 b 'char'",
    ]);
    assert_eq!(state.struct_list.len(), 1);
    assert_eq!(state.struct_list[0].variables.len(), 2);
    assert_eq!(state.struct_list[0].variables[0].name, "a");
    assert_eq!(state.struct_list[0].variables[1].name, "b");
}

#[test]
fn test_class_and_struct_definitions_on_one_line() {
    // A line matching both stricter patterns opens one record in each
    // catalog.
    let state = run(&["|-CXXRecordDecl 0x1 class A definition struct B definition"]);
    assert_eq!(state.class_list.len(), 1);
    assert_eq!(state.struct_list.len(), 1);
    assert_eq!(state.class_list[0].name, "A");
    assert_eq!(state.struct_list[0].name, "B");
}

#[test]
fn test_search_tree_path_finds_open_struct() {
    let mut state = State::new();
    state.process_line(
        "|-CXXRecordDecl 0x1 <a.cpp> line:1:8 struct Point definition".to_string(),
    );
    assert!(state.search_tree_path("struct"));
    assert!(!state.search_tree_path("union"));
}

#[test]
fn test_used_token_inside_signature_counts_as_marker() {
    // The usage flag is read off the space-separated tokens of the whole
    // matched text, so a bare `used` inside the quoted signature sets it,
    // and the name is then taken from the second token.
    let state = run(&[
        "|-CXXRecordDecl 0x1 <a.cpp> line:1:7 class Q definition",
        "| `-CXXMethodDecl 0x2 <line:2:3> col:8 f 'a used b'",
    ]);
    let method = &state.class_list[0].methods[0];
    assert!(method.used);
    assert_eq!(method.name, "'a");
    assert_eq!(method.signature, "a used b");
}

#[test]
fn test_empty_quoted_ancestor_name_is_appended() {
    let state = run(&[
        "|-CXXRecordDecl 0x1 <a.cpp> line:1:7 class Derived definition",
        "| `-public ''",
    ]);
    assert_eq!(state.class_list[0].inherited.public, vec!["".to_string()]);
}

#[test]
fn test_expected_full_records() {
    let state = run(&[
        "|-CXXRecordDecl 0x1 <a.cpp> line:1:7 class Shape definition",
        "| |-public 'Drawable'",
        "| `-CXXMethodDecl 0x2 <line:3:3> col:8 area 'long ()'",
        "`-CXXRecordDecl 0x5 <a.cpp> line:9:8 struct Pair definition",
        "  `-FieldDecl 0x6 <line:10:3> col:7 first 'char'",
    ]);
    assert_eq!(
        state.class_list,
        vec![Class {
            name: "Shape".to_string(),
            inherited: Inherit {
                public: vec!["Drawable".to_string()],
                private: vec![],
                protected: vec![],
            },
            methods: vec![Method {
                name: "area".to_string(),
                signature: "long ()".to_string(),
                used: false,
            }],
        }]
    );
    assert_eq!(
        state.struct_list,
        vec![Struct {
            name: "Pair".to_string(),
            variables: vec![Variable {
                name: "first".to_string(),
                variable_type: "char".to_string(),
            }],
        }]
    );
}
