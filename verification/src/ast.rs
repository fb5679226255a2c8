//! The syntax of an early form of the data description language, in which
//! types and variables are referred to by name.

use crate::symbol::StringId;
use vstd::prelude::*;

pub mod check;
pub mod env;

verus! {

/// Names of types and variables.
pub type Name = StringId;

/// A byte offset in a source file.
#[derive(Clone, Copy, PartialEq, Eq, Structural, Debug)]
pub struct BytePos(pub u32);

/// A region of a source file, from the offset `lo` up to the offset `hi`.
#[derive(Clone, Copy, PartialEq, Eq, Structural, Debug)]
pub struct Span {
    pub lo: BytePos,
    pub hi: BytePos,
}

impl Span {
    pub fn new(lo: BytePos, hi: BytePos) -> (span: Span)
        ensures
            span == (Span { lo, hi }),
    {
        Span { lo, hi }
    }
}

/// The byte order of an integer or a float.
#[derive(Clone, Copy, PartialEq, Eq, Structural, Debug)]
pub enum Endianness {
    Little,
    Big,
    /// The byte order of the machine that the data is for.
    Target,
}

/// A constant.
#[derive(Clone, Copy, PartialEq, Eq, Structural, Debug)]
pub enum Const {
    Bool(bool),
    UInt(u64),
}

/// A unary operator.
#[derive(Clone, Copy, PartialEq, Eq, Structural, Debug)]
pub enum Unop {
    Neg,
    Not,
}

/// A binary operator.
#[derive(Clone, Copy, PartialEq, Eq, Structural, Debug)]
pub enum Binop {
    Or,
    And,
    Eq,
    Ne,
    Le,
    Lt,
    Gt,
    Ge,
    Add,
    Sub,
    Mul,
    Div,
}

/// An expression.
#[derive(Debug)]
pub enum Expr {
    /// A constant.
    Const(Span, Const),
    /// A variable.
    Var(Span, Name),
    /// A unary operator applied to an operand.
    Unop(Span, Unop, Box<Expr>),
    /// A binary operator applied to two operands.
    Binop(Span, Binop, Box<Expr>, Box<Expr>),
}

/// The kind of a type.
#[derive(Clone, Copy, PartialEq, Eq, Structural, Debug)]
pub enum Kind {
    Type,
}

/// A type.
#[derive(Debug)]
pub enum Type {
    /// A type variable.
    Var(Span, Name),
    /// Booleans.
    Bool,
    /// The unsigned integer of the given value.
    SingletonUInt(u64),
    /// Unsigned integers of the given size and byte order.
    UInt(usize, Endianness),
    /// Signed integers of the given size and byte order.
    SInt(usize, Endianness),
    /// Floats of the given size and byte order.
    Float(usize, Endianness),
    /// A union of types.
    Union(Span, Types),
    /// A struct of fields, each in scope of the fields after it.
    Struct(Span, Fields),
    /// An array of the given type, of the size that the expression gives.
    Array(Span, Box<Type>, Box<Expr>),
    /// A type whose values satisfy a predicate on the parameter of the
    /// given name.
    Where(Span, Box<Type>, Name, Box<Expr>),
}

/// A sequence of types.
#[derive(Debug)]
pub enum Types {
    Nil,
    Cons(Box<Type>, Box<Types>),
}

/// A sequence of fields: names with their types.
#[derive(Debug)]
pub enum Fields {
    Nil,
    Cons(Name, Box<Type>, Box<Fields>),
}

/// A definition of a named type.
#[derive(Debug)]
pub struct Definition {
    pub name: Name,
    pub ty: Type,
}

impl Clone for Expr {
    fn clone(&self) -> (copy: Expr)
        ensures
            copy == *self,
        decreases self,
    {
        match self {
            Expr::Const(span, constant) => Expr::Const(*span, *constant),
            Expr::Var(span, name) => Expr::Var(*span, *name),
            Expr::Unop(span, op, value) => Expr::Unop(*span, *op, Box::new((**value).clone())),
            Expr::Binop(span, op, lhs, rhs) => Expr::Binop(
                *span,
                *op,
                Box::new((**lhs).clone()),
                Box::new((**rhs).clone()),
            ),
        }
    }
}

impl Clone for Type {
    fn clone(&self) -> (copy: Type)
        ensures
            copy == *self,
        decreases self,
    {
        match self {
            Type::Var(span, name) => Type::Var(*span, *name),
            Type::Bool => Type::Bool,
            Type::SingletonUInt(value) => Type::SingletonUInt(*value),
            Type::UInt(size, endianness) => Type::UInt(*size, *endianness),
            Type::SInt(size, endianness) => Type::SInt(*size, *endianness),
            Type::Float(size, endianness) => Type::Float(*size, *endianness),
            Type::Union(span, tys) => Type::Union(*span, tys.clone()),
            Type::Struct(span, fields) => Type::Struct(*span, fields.clone()),
            Type::Array(span, ty, size) => Type::Array(
                *span,
                Box::new((**ty).clone()),
                Box::new((**size).clone()),
            ),
            Type::Where(span, ty, param, pred) => Type::Where(
                *span,
                Box::new((**ty).clone()),
                *param,
                Box::new((**pred).clone()),
            ),
        }
    }
}

impl Clone for Types {
    fn clone(&self) -> (copy: Types)
        ensures
            copy == *self,
        decreases self,
    {
        match self {
            Types::Nil => Types::Nil,
            Types::Cons(ty, rest) => Types::Cons(
                Box::new((**ty).clone()),
                Box::new((**rest).clone()),
            ),
        }
    }
}

impl Clone for Fields {
    fn clone(&self) -> (copy: Fields)
        ensures
            copy == *self,
        decreases self,
    {
        match self {
            Fields::Nil => Fields::Nil,
            Fields::Cons(name, ty, rest) => Fields::Cons(
                *name,
                Box::new((**ty).clone()),
                Box::new((**rest).clone()),
            ),
        }
    }
}

/// Whether two expressions are the same.
pub fn same_expr(left: &Expr, right: &Expr) -> (same: bool)
    ensures
        same == (*left == *right),
    decreases left,
{
    match (left, right) {
        (Expr::Const(a_span, a), Expr::Const(b_span, b)) => *a_span == *b_span && *a == *b,
        (Expr::Var(a_span, a), Expr::Var(b_span, b)) => *a_span == *b_span && *a == *b,
        (Expr::Unop(a_span, a_op, a), Expr::Unop(b_span, b_op, b)) => *a_span == *b_span && *a_op
            == *b_op && same_expr(&**a, &**b),
        (Expr::Binop(a_span, a_op, a0, a1), Expr::Binop(b_span, b_op, b0, b1)) => *a_span
            == *b_span && *a_op == *b_op && same_expr(&**a0, &**b0) && same_expr(&**a1, &**b1),
        (_, _) => false,
    }
}

/// Whether two types are the same.
pub fn same_type(left: &Type, right: &Type) -> (same: bool)
    ensures
        same == (*left == *right),
    decreases left,
{
    match (left, right) {
        (Type::Var(a_span, a), Type::Var(b_span, b)) => *a_span == *b_span && *a == *b,
        (Type::Bool, Type::Bool) => true,
        (Type::SingletonUInt(a), Type::SingletonUInt(b)) => *a == *b,
        (Type::UInt(a, a_end), Type::UInt(b, b_end)) => *a == *b && *a_end == *b_end,
        (Type::SInt(a, a_end), Type::SInt(b, b_end)) => *a == *b && *a_end == *b_end,
        (Type::Float(a, a_end), Type::Float(b, b_end)) => *a == *b && *a_end == *b_end,
        (Type::Union(a_span, a), Type::Union(b_span, b)) => *a_span == *b_span && same_types(a, b),
        (Type::Struct(a_span, a), Type::Struct(b_span, b)) => *a_span == *b_span && same_fields(
            a,
            b,
        ),
        (Type::Array(a_span, a, a_size), Type::Array(b_span, b, b_size)) => *a_span == *b_span
            && same_type(&**a, &**b) && same_expr(&**a_size, &**b_size),
        (Type::Where(a_span, a, a_param, a_pred), Type::Where(b_span, b, b_param, b_pred)) => {
            *a_span == *b_span && same_type(&**a, &**b) && *a_param == *b_param && same_expr(
                &**a_pred,
                &**b_pred,
            )
        },
        (_, _) => false,
    }
}

/// Whether two sequences of types are the same.
pub fn same_types(left: &Types, right: &Types) -> (same: bool)
    ensures
        same == (*left == *right),
    decreases left,
{
    match (left, right) {
        (Types::Nil, Types::Nil) => true,
        (Types::Cons(a, a_rest), Types::Cons(b, b_rest)) => same_type(&**a, &**b) && same_types(
            &**a_rest,
            &**b_rest,
        ),
        (_, _) => false,
    }
}

/// Whether two sequences of fields are the same.
pub fn same_fields(left: &Fields, right: &Fields) -> (same: bool)
    ensures
        same == (*left == *right),
    decreases left,
{
    match (left, right) {
        (Fields::Nil, Fields::Nil) => true,
        (Fields::Cons(a_name, a, a_rest), Fields::Cons(b_name, b, b_rest)) => *a_name == *b_name
            && same_type(&**a, &**b) && same_fields(&**a_rest, &**b_rest),
        (_, _) => false,
    }
}

} // verus!
