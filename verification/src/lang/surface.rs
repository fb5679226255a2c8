//! The surface syntax: modules of items, as a parser hands them over.

use crate::lang::Ranged;
use vstd::prelude::*;

verus! {

/// A module of items.
#[derive(Debug)]
pub struct Module {
    /// The file in which this module was defined.
    pub file_id: usize,
    /// Doc comment.
    pub doc: Vec<String>,
    /// The items in this module.
    pub items: Vec<Item>,
}

impl Module {
    /// The module that stands for a file that could not be parsed: it has
    /// no doc comment and no items.
    pub fn empty(file_id: usize) -> (module: Module)
        ensures
            module.file_id == file_id,
            module.doc@.len() == 0,
            module.items@.len() == 0,
    {
        Module { file_id, doc: Vec::new(), items: Vec::new() }
    }
}

/// Items in the surface language.
pub type Item = Ranged<ItemData>;

/// Items in a module.
#[derive(Debug)]
pub enum ItemData {
    /// Alias definitions.
    ///
    /// ```text
    /// alias <name> = <term>;
    /// ```
    Alias(Alias),
    /// Struct definitions.
    ///
    /// ```text
    /// struct <name> {}
    /// ```
    StructType(StructType),
}

/// Alias definition.
#[derive(Debug)]
pub struct Alias {
    /// Doc comment.
    pub doc: Vec<String>,
    /// Name of this definition.
    pub name: Ranged<String>,
    /// Optional type annotation
    pub type_: Option<Term>,
    /// The term that the alias stands for.
    pub term: Term,
}

/// A struct type definition.
#[derive(Debug)]
pub struct StructType {
    /// Doc comment.
    pub doc: Vec<String>,
    /// Name of this definition.
    pub name: Ranged<String>,
    /// Type of this struct definition.
    pub type_: Option<Term>,
    /// Fields in the struct.
    pub fields: Vec<TypeField>,
}

/// A field in a struct type.
#[derive(Debug)]
pub struct TypeField {
    pub doc: Vec<String>,
    pub name: Ranged<String>,
    pub term: Term,
}

/// Patterns in the surface language.
pub type Pattern = Ranged<PatternData>;

/// Pattern data.
#[derive(Debug, Clone)]
pub enum PatternData {
    /// Named patterns.
    Name(String),
    /// Numeric literals.
    NumberLiteral(String),
}

/// Terms in the surface language.
pub type Term = Ranged<TermData>;

/// Term data.
#[derive(Debug)]
pub enum TermData {
    /// Annotated terms.
    Ann(Box<Term>, Box<Term>),
    /// Names.
    Name(String),
    /// Type of types.
    TypeType,
    /// Type of kinds.
    KindType,
    /// Function types.
    FunctionType(Box<Term>, Box<Term>),
    /// Function eliminations (function application).
    FunctionElim(Box<Term>, Vec<Term>),
    /// Numeric literals.
    NumberLiteral(String),
    /// If-else expressions.
    If(Box<Term>, Box<Term>, Box<Term>),
    /// Match expressions.
    Match(Box<Term>, Vec<(Pattern, Term)>),
    /// Type of format descriptions.
    FormatType,
    /// Error sentinel terms.
    Error,
}

} // verus!
