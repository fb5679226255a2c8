//! The host language: the expressions that binary types depend on, and
//! their types.

use crate::syntax::{Name, Var};
use vstd::prelude::*;
use vstd::std_specs::cmp::PartialEqSpecImpl;

verus! {

/// A constant of the host language.
#[derive(Clone, Copy, PartialEq, Eq, Structural, Debug)]
pub enum Const {
    /// A single bit.
    Bit(bool),
    /// A boolean.
    Bool(bool),
    /// An integer.
    Int(i64),
}

/// A unary operator.
#[derive(Clone, Copy, PartialEq, Eq, Structural, Debug)]
pub enum Unop {
    /// Negation of integers.
    Neg,
    /// Negation of booleans.
    Not,
}

/// A binary operator.
#[derive(Clone, Copy, PartialEq, Eq, Structural, Debug)]
pub enum Binop {
    Or,
    And,
    Eq,
    Ne,
    Le,
    Lt,
    Gt,
    Ge,
    Add,
    Sub,
    Mul,
    Div,
}

/// A type constant.
#[derive(Clone, Copy, PartialEq, Eq, Structural, Debug)]
pub enum TypeConst {
    Bit,
    Bool,
    Int,
}

/// A type of the host language.
#[derive(Debug)]
pub enum Type {
    /// A type variable.
    Var(Var),
    /// A type constant.
    Const(TypeConst),
    /// The type of functions from the first type to the second.
    Arrow(Box<Type>, Box<Type>),
    /// The type of arrays of the given type.
    Array(Box<Type>),
    /// The type of the values of one of the given types.
    Union(Types),
    /// The type of records with the given fields.
    Struct(Fields),
}

/// A sequence of types.
#[derive(Debug)]
pub enum Types {
    Nil,
    Cons(Box<Type>, Box<Types>),
}

/// A sequence of fields: names with their types.
#[derive(Debug)]
pub enum Fields {
    Nil,
    Cons(Name, Box<Type>, Box<Fields>),
}

impl Fields {
    /// The type of the first field of the given name.
    pub open spec fn spec_lookup(&self, name: Name) -> Option<Type>
        decreases self,
    {
        match self {
            Fields::Nil => None,
            Fields::Cons(field_name, ty, rest) => if *field_name == name {
                Some(**ty)
            } else {
                rest.spec_lookup(name)
            },
        }
    }

    /// The type of the first field of the given name.
    pub fn lookup(&self, name: Name) -> (found: Option<&Type>)
        ensures
            match found {
                Some(ty) => self.spec_lookup(name) == Some(*ty),
                None => self.spec_lookup(name) is None,
            },
    {
        let mut fields: &Fields = self;
        loop
            invariant
                self.spec_lookup(name) == fields.spec_lookup(name),
            decreases fields,
        {
            match fields {
                Fields::Nil => {
                    return None;
                },
                Fields::Cons(field_name, ty, rest) => {
                    if *field_name == name {
                        return Some(&**ty);
                    }
                    fields = &**rest;
                },
            }
        }
    }
}

impl Type {
    /// The type of bits.
    pub fn bit_ty() -> (ty: Type)
        ensures
            ty == Type::Const(TypeConst::Bit),
    {
        Type::Const(TypeConst::Bit)
    }

    /// The type of booleans.
    pub fn bool_ty() -> (ty: Type)
        ensures
            ty == Type::Const(TypeConst::Bool),
    {
        Type::Const(TypeConst::Bool)
    }

    /// The type of integers.
    pub fn int_ty() -> (ty: Type)
        ensures
            ty == Type::Const(TypeConst::Int),
    {
        Type::Const(TypeConst::Int)
    }

    /// The type of functions from `param_ty` to `ret_ty`.
    pub fn arrow(param_ty: Type, ret_ty: Type) -> (ty: Type)
        ensures
            ty == Type::Arrow(Box::new(param_ty), Box::new(ret_ty)),
    {
        Type::Arrow(Box::new(param_ty), Box::new(ret_ty))
    }

    /// The type of the field of the given name, where the type is a record
    /// type with such a field.
    pub open spec fn spec_lookup_field(&self, name: Name) -> Option<Type> {
        match self {
            Type::Struct(fields) => fields.spec_lookup(name),
            _ => None,
        }
    }

    /// The type of the field of the given name, where the type is a record
    /// type with such a field.
    pub fn lookup_field(&self, name: Name) -> (found: Option<&Type>)
        ensures
            match found {
                Some(ty) => self.spec_lookup_field(name) == Some(*ty),
                None => self.spec_lookup_field(name) is None,
            },
    {
        match self {
            Type::Struct(fields) => fields.lookup(name),
            _ => None,
        }
    }
}

impl Clone for Type {
    fn clone(&self) -> (copy: Type)
        ensures
            copy == *self,
        decreases self,
    {
        match self {
            Type::Var(var) => Type::Var(*var),
            Type::Const(constant) => Type::Const(*constant),
            Type::Arrow(param_ty, ret_ty) => Type::Arrow(
                Box::new((**param_ty).clone()),
                Box::new((**ret_ty).clone()),
            ),
            Type::Array(elem_ty) => Type::Array(Box::new((**elem_ty).clone())),
            Type::Union(tys) => Type::Union(tys.clone()),
            Type::Struct(fields) => Type::Struct(fields.clone()),
        }
    }
}

impl Clone for Types {
    fn clone(&self) -> (copy: Types)
        ensures
            copy == *self,
        decreases self,
    {
        match self {
            Types::Nil => Types::Nil,
            Types::Cons(ty, rest) => Types::Cons(
                Box::new((**ty).clone()),
                Box::new((**rest).clone()),
            ),
        }
    }
}

impl Clone for Fields {
    fn clone(&self) -> (copy: Fields)
        ensures
            copy == *self,
        decreases self,
    {
        match self {
            Fields::Nil => Fields::Nil,
            Fields::Cons(name, ty, rest) => Fields::Cons(
                *name,
                Box::new((**ty).clone()),
                Box::new((**rest).clone()),
            ),
        }
    }
}

/// Whether two types are the same.
pub fn same_type(left: &Type, right: &Type) -> (same: bool)
    ensures
        same == (*left == *right),
    decreases left,
{
    match (left, right) {
        (Type::Var(a), Type::Var(b)) => *a == *b,
        (Type::Const(a), Type::Const(b)) => *a == *b,
        (Type::Arrow(a0, a1), Type::Arrow(b0, b1)) => same_type(&**a0, &**b0) && same_type(
            &**a1,
            &**b1,
        ),
        (Type::Array(a), Type::Array(b)) => same_type(&**a, &**b),
        (Type::Union(a), Type::Union(b)) => same_types(a, b),
        (Type::Struct(a), Type::Struct(b)) => same_fields(a, b),
        (_, _) => false,
    }
}

/// Whether two sequences of types are the same.
pub fn same_types(left: &Types, right: &Types) -> (same: bool)
    ensures
        same == (*left == *right),
    decreases left,
{
    match (left, right) {
        (Types::Nil, Types::Nil) => true,
        (Types::Cons(a, a_rest), Types::Cons(b, b_rest)) => same_type(&**a, &**b) && same_types(
            &**a_rest,
            &**b_rest,
        ),
        (_, _) => false,
    }
}

/// Whether two sequences of fields are the same.
pub fn same_fields(left: &Fields, right: &Fields) -> (same: bool)
    ensures
        same == (*left == *right),
    decreases left,
{
    match (left, right) {
        (Fields::Nil, Fields::Nil) => true,
        (Fields::Cons(a_name, a, a_rest), Fields::Cons(b_name, b, b_rest)) => *a_name == *b_name
            && same_type(&**a, &**b) && same_fields(&**a_rest, &**b_rest),
        (_, _) => false,
    }
}

impl PartialEq for Type {
    fn eq(&self, other: &Type) -> (equal: bool) {
        same_type(self, other)
    }
}

impl PartialEqSpecImpl for Type {
    open spec fn obeys_eq_spec() -> bool {
        true
    }

    open spec fn eq_spec(&self, other: &Type) -> bool {
        *self == *other
    }
}

/// An expression of the host language.
#[derive(Debug)]
pub enum Expr {
    /// A constant.
    Const(Const),
    /// A primitive of the given name, with its type.
    Prim(Name, Box<Type>),
    /// A variable.
    Var(Var),
    /// A unary operator applied to an operand.
    Unop(Unop, Box<Expr>),
    /// A binary operator applied to two operands.
    Binop(Binop, Box<Expr>, Box<Expr>),
    /// The projection of a field from a record.
    Proj(Box<Expr>, Name),
    /// A function of a parameter of the given name and type.
    Abs(Name, Box<Type>, Box<Expr>),
}

impl Clone for Expr {
    fn clone(&self) -> (copy: Expr)
        ensures
            copy == *self,
        decreases self,
    {
        match self {
            Expr::Const(constant) => Expr::Const(*constant),
            Expr::Prim(name, repr_ty) => Expr::Prim(*name, Box::new((**repr_ty).clone())),
            Expr::Var(var) => Expr::Var(*var),
            Expr::Unop(op, expr) => Expr::Unop(*op, Box::new((**expr).clone())),
            Expr::Binop(op, lhs_expr, rhs_expr) => Expr::Binop(
                *op,
                Box::new((**lhs_expr).clone()),
                Box::new((**rhs_expr).clone()),
            ),
            Expr::Proj(struct_expr, field_name) => Expr::Proj(
                Box::new((**struct_expr).clone()),
                *field_name,
            ),
            Expr::Abs(param_name, param_ty, body_expr) => Expr::Abs(
                *param_name,
                Box::new((**param_ty).clone()),
                Box::new((**body_expr).clone()),
            ),
        }
    }
}

} // verus!
