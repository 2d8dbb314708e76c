//! Incremental parser for a compiler's textual AST dump.
//!
//! The parser reads the dump one line at a time, recovers each line's
//! nesting depth and declaration keyword from its branch-drawing
//! decoration, tracks the path of currently open ancestor lines, and
//! builds ordered catalogs of the struct and class declarations it finds.

pub mod classify;
pub mod laws;
pub mod model;
pub mod patterns;
pub mod state;
pub mod text;

pub use model::Class;
pub use model::Inherit;
pub use model::Method;
pub use model::Struct;
pub use model::Variable;
pub use state::State;
