//! The model catalogs' record types.
//!
//! A record is a struct or class declaration extracted from the dump.
//! Classes carry their inheritance lists and methods; structs carry their
//! fields. Records are only ever appended to, and members are only ever
//! appended to the record most recently opened.

use vstd::prelude::*;

verus! {

/// The ordered ancestor-name lists of a class, one per access specifier.
#[derive(Debug, PartialEq)]
pub struct Inherit {
    pub public: Vec<String>,
    pub private: Vec<String>,
    pub protected: Vec<String>,
}

/// A method of a class: its name, its quoted signature text with the
/// quotes stripped, and whether the dump marks it as used.
#[derive(Debug, PartialEq)]
pub struct Method {
    pub name: String,
    pub signature: String,
    pub used: bool,
}

/// A class declaration: its name, what it inherits from, and its methods
/// in dump order.
#[derive(Debug, PartialEq)]
pub struct Class {
    pub name: String,
    pub inherited: Inherit,
    pub methods: Vec<Method>,
}

/// A field of a struct: its name and its type text with the quoting
/// stripped.
#[derive(Debug, PartialEq)]
pub struct Variable {
    pub name: String,
    pub variable_type: String,
}

/// A struct declaration: its name and its fields in dump order.
#[derive(Debug, PartialEq)]
pub struct Struct {
    pub name: String,
    pub variables: Vec<Variable>,
}

/// The mathematical value of an `Inherit`.
#[verifier::ext_equal]
pub struct InheritView {
    pub public: Seq<Seq<char>>,
    pub private: Seq<Seq<char>>,
    pub protected: Seq<Seq<char>>,
}

/// The mathematical value of a `Method`.
#[verifier::ext_equal]
pub struct MethodView {
    pub name: Seq<char>,
    pub signature: Seq<char>,
    pub used: bool,
}

/// The mathematical value of a `Class`.
#[verifier::ext_equal]
pub struct ClassView {
    pub name: Seq<char>,
    pub inherited: InheritView,
    pub methods: Seq<MethodView>,
}

/// The mathematical value of a `Variable`.
#[verifier::ext_equal]
pub struct VariableView {
    pub name: Seq<char>,
    pub variable_type: Seq<char>,
}

/// The mathematical value of a `Struct`.
#[verifier::ext_equal]
pub struct StructView {
    pub name: Seq<char>,
    pub variables: Seq<VariableView>,
}

impl View for Inherit {
    type V = InheritView;

    open spec fn view(&self) -> InheritView {
        InheritView {
            public: self.public.deep_view(),
            private: self.private.deep_view(),
            protected: self.protected.deep_view(),
        }
    }
}

impl View for Method {
    type V = MethodView;

    open spec fn view(&self) -> MethodView {
        MethodView { name: self.name@, signature: self.signature@, used: self.used }
    }
}

impl View for Class {
    type V = ClassView;

    open spec fn view(&self) -> ClassView {
        ClassView {
            name: self.name@,
            inherited: self.inherited@,
            methods: self.methods@.map_values(|m: Method| m@),
        }
    }
}

impl View for Variable {
    type V = VariableView;

    open spec fn view(&self) -> VariableView {
        VariableView { name: self.name@, variable_type: self.variable_type@ }
    }
}

impl View for Struct {
    type V = StructView;

    open spec fn view(&self) -> StructView {
        StructView { name: self.name@, variables: self.variables@.map_values(|v: Variable| v@) }
    }
}

/// The inheritance lists of a freshly opened class: all three empty.
pub open spec fn empty_inherit() -> InheritView {
    InheritView {
        public: Seq::empty(),
        private: Seq::empty(),
        protected: Seq::empty(),
    }
}

} // verus!
