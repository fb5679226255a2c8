//! The binary language: the types that describe how data is laid out.

use crate::syntax::host;
use crate::syntax::{Name, Var};
use vstd::prelude::*;
use vstd::std_specs::cmp::PartialEqSpecImpl;

verus! {

/// The kind of a binary type.
#[derive(Debug)]
pub enum Kind {
    /// The kind of the types that describe data.
    Type,
    /// The kind of the type functions from the first kind to the second.
    Arrow(Box<Kind>, Box<Kind>),
}

impl Kind {
    /// The kind of type functions from `param_kind` to `ret_kind`.
    pub fn arrow(param_kind: Kind, ret_kind: Kind) -> (kind: Kind)
        ensures
            kind == Kind::Arrow(Box::new(param_kind), Box::new(ret_kind)),
    {
        Kind::Arrow(Box::new(param_kind), Box::new(ret_kind))
    }
}

impl Clone for Kind {
    fn clone(&self) -> (copy: Kind)
        ensures
            copy == *self,
        decreases self,
    {
        match self {
            Kind::Type => Kind::Type,
            Kind::Arrow(param_kind, ret_kind) => Kind::Arrow(
                Box::new((**param_kind).clone()),
                Box::new((**ret_kind).clone()),
            ),
        }
    }
}

/// Whether two kinds are the same.
pub fn same_kind(left: &Kind, right: &Kind) -> (same: bool)
    ensures
        same == (*left == *right),
    decreases left,
{
    match (left, right) {
        (Kind::Type, Kind::Type) => true,
        (Kind::Arrow(a0, a1), Kind::Arrow(b0, b1)) => same_kind(&**a0, &**b0) && same_kind(
            &**a1,
            &**b1,
        ),
        (_, _) => false,
    }
}

impl PartialEq for Kind {
    fn eq(&self, other: &Kind) -> (equal: bool) {
        same_kind(self, other)
    }
}

impl PartialEqSpecImpl for Kind {
    open spec fn obeys_eq_spec() -> bool {
        true
    }

    open spec fn eq_spec(&self, other: &Kind) -> bool {
        *self == *other
    }
}

/// A type constant.
#[derive(Clone, Copy, PartialEq, Eq, Structural, Debug)]
pub enum TypeConst {
    /// A single bit.
    Bit,
}

/// A binary type.
#[derive(Debug)]
pub enum Type {
    /// A type variable.
    Var(Var),
    /// A type constant.
    Const(TypeConst),
    /// An array of the given type, of the size that the expression gives.
    Array(Box<Type>, Box<host::Expr>),
    /// A union of the given types.
    Union(Types),
    /// A struct of the given fields, each in scope of the fields after it.
    Struct(Fields),
    /// A type whose values satisfy the predicate.
    Cond(Box<Type>, Box<host::Expr>),
    /// A type whose values are converted by the function into values of
    /// the host type.
    Interp(Box<Type>, Box<host::Expr>, Box<host::Type>),
    /// A type function of a parameter of the given name and kind.
    Abs(Name, Kind, Box<Type>),
    /// A type function applied to a type.
    App(Box<Type>, Box<Type>),
}

/// A sequence of types.
#[derive(Debug)]
pub enum Types {
    Nil,
    Cons(Box<Type>, Box<Types>),
}

/// A sequence of fields: names with their types.
#[derive(Debug)]
pub enum Fields {
    Nil,
    Cons(Name, Box<Type>, Box<Fields>),
}

impl Clone for Type {
    fn clone(&self) -> (copy: Type)
        ensures
            copy == *self,
        decreases self,
    {
        match self {
            Type::Var(var) => Type::Var(*var),
            Type::Const(constant) => Type::Const(*constant),
            Type::Array(elem_ty, size_expr) => Type::Array(
                Box::new((**elem_ty).clone()),
                Box::new((**size_expr).clone()),
            ),
            Type::Union(tys) => Type::Union(tys.clone()),
            Type::Struct(fields) => Type::Struct(fields.clone()),
            Type::Cond(ty, pred_expr) => Type::Cond(
                Box::new((**ty).clone()),
                Box::new((**pred_expr).clone()),
            ),
            Type::Interp(ty, conv_expr, host_ty) => Type::Interp(
                Box::new((**ty).clone()),
                Box::new((**conv_expr).clone()),
                Box::new((**host_ty).clone()),
            ),
            Type::Abs(name, param_kind, body_ty) => Type::Abs(
                *name,
                param_kind.clone(),
                Box::new((**body_ty).clone()),
            ),
            Type::App(fn_ty, arg_ty) => Type::App(
                Box::new((**fn_ty).clone()),
                Box::new((**arg_ty).clone()),
            ),
        }
    }
}

impl Clone for Types {
    fn clone(&self) -> (copy: Types)
        ensures
            copy == *self,
        decreases self,
    {
        match self {
            Types::Nil => Types::Nil,
            Types::Cons(ty, rest) => Types::Cons(
                Box::new((**ty).clone()),
                Box::new((**rest).clone()),
            ),
        }
    }
}

impl Clone for Fields {
    fn clone(&self) -> (copy: Fields)
        ensures
            copy == *self,
        decreases self,
    {
        match self {
            Fields::Nil => Fields::Nil,
            Fields::Cons(name, ty, rest) => Fields::Cons(
                *name,
                Box::new((**ty).clone()),
                Box::new((**rest).clone()),
            ),
        }
    }
}

impl Type {
    /// The host type of the values that data of this type is read as:
    /// arrays of the representations of their elements, unions and records
    /// of the representations of their members, the type itself for a
    /// condition, and the host type of an interpretation. Type functions and
    /// their applications have none.
    pub open spec fn spec_repr(&self) -> Option<host::Type>
        decreases self,
    {
        match self {
            Type::Var(var) => Some(host::Type::Var(*var)),
            Type::Const(TypeConst::Bit) => Some(host::Type::Const(host::TypeConst::Bit)),
            Type::Array(elem_ty, _) => match elem_ty.spec_repr() {
                Some(elem_repr) => Some(host::Type::Array(Box::new(elem_repr))),
                None => None,
            },
            Type::Union(tys) => match tys.spec_repr() {
                Some(reprs) => Some(host::Type::Union(reprs)),
                None => None,
            },
            Type::Struct(fields) => match fields.spec_repr() {
                Some(reprs) => Some(host::Type::Struct(reprs)),
                None => None,
            },
            Type::Cond(ty, _) => ty.spec_repr(),
            Type::Interp(_, _, host_ty) => Some(**host_ty),
            Type::Abs(_, _, _) => None,
            Type::App(_, _) => None,
        }
    }

    /// The host type of the values that data of this type is read as.
    pub fn repr(&self) -> (repr: Result<host::Type, ()>)
        ensures
            match repr {
                Ok(ty) => self.spec_repr() == Some(ty),
                Err(()) => self.spec_repr() is None,
            },
        decreases self,
    {
        match self {
            Type::Var(var) => Ok(host::Type::Var(*var)),
            Type::Const(TypeConst::Bit) => Ok(host::Type::Const(host::TypeConst::Bit)),
            Type::Array(elem_ty, _) => match elem_ty.repr() {
                Ok(elem_repr) => Ok(host::Type::Array(Box::new(elem_repr))),
                Err(()) => Err(()),
            },
            Type::Union(tys) => match tys.repr() {
                Ok(reprs) => Ok(host::Type::Union(reprs)),
                Err(()) => Err(()),
            },
            Type::Struct(fields) => match fields.repr() {
                Ok(reprs) => Ok(host::Type::Struct(reprs)),
                Err(()) => Err(()),
            },
            Type::Cond(ty, _) => ty.repr(),
            Type::Interp(_, _, host_ty) => Ok((**host_ty).clone()),
            Type::Abs(_, _, _) => Err(()),
            Type::App(_, _) => Err(()),
        }
    }

    /// The type with `src` in place of the variable that is bound `level`
    /// binders out. The fields of a struct each bind one more variable for
    /// the fields after them.
    pub open spec fn spec_instantiate_at(&self, level: u32, src: &Type) -> Type
        decreases self,
    {
        match self {
            Type::Var(Var::Bound(_, i)) => if *i == level {
                *src
            } else {
                *self
            },
            Type::Var(Var::Free(_)) => *self,
            Type::Const(_) => *self,
            Type::Array(elem_ty, size_expr) => Type::Array(
                Box::new(elem_ty.spec_instantiate_at(level, src)),
                *size_expr,
            ),
            Type::Union(tys) => Type::Union(tys.spec_instantiate_at(level, src)),
            Type::Struct(fields) => Type::Struct(fields.spec_instantiate_at(level, src)),
            Type::Cond(ty, pred_expr) => Type::Cond(
                Box::new(ty.spec_instantiate_at(level, src)),
                *pred_expr,
            ),
            Type::Interp(ty, conv_expr, host_ty) => Type::Interp(
                Box::new(ty.spec_instantiate_at(level, src)),
                *conv_expr,
                *host_ty,
            ),
            Type::Abs(name, param_kind, body_ty) => Type::Abs(
                *name,
                *param_kind,
                Box::new(body_ty.spec_instantiate_at(next_level(level), src)),
            ),
            Type::App(fn_ty, arg_ty) => Type::App(
                Box::new(fn_ty.spec_instantiate_at(level, src)),
                Box::new(arg_ty.spec_instantiate_at(level, src)),
            ),
        }
    }

    /// The type with `src` in place of the variable that is bound `level`
    /// binders out.
    pub fn instantiate_at(&self, level: u32, src: &Type) -> (ty: Type)
        ensures
            ty == self.spec_instantiate_at(level, src),
        decreases self,
    {
        match self {
            Type::Var(Var::Bound(_, i)) => {
                if *i == level {
                    src.clone()
                } else {
                    self.clone()
                }
            },
            Type::Var(Var::Free(_)) => self.clone(),
            Type::Const(_) => self.clone(),
            Type::Array(elem_ty, size_expr) => Type::Array(
                Box::new(elem_ty.instantiate_at(level, src)),
                Box::new((**size_expr).clone()),
            ),
            Type::Union(tys) => Type::Union(tys.instantiate_at(level, src)),
            Type::Struct(fields) => Type::Struct(fields.instantiate_at(level, src)),
            Type::Cond(ty, pred_expr) => Type::Cond(
                Box::new(ty.instantiate_at(level, src)),
                Box::new((**pred_expr).clone()),
            ),
            Type::Interp(ty, conv_expr, host_ty) => Type::Interp(
                Box::new(ty.instantiate_at(level, src)),
                Box::new((**conv_expr).clone()),
                Box::new((**host_ty).clone()),
            ),
            Type::Abs(name, param_kind, body_ty) => Type::Abs(
                *name,
                param_kind.clone(),
                Box::new(body_ty.instantiate_at(next(level), src)),
            ),
            Type::App(fn_ty, arg_ty) => Type::App(
                Box::new(fn_ty.instantiate_at(level, src)),
                Box::new(arg_ty.instantiate_at(level, src)),
            ),
        }
    }

    /// Puts `ty` in place of the variable that the nearest binder binds.
    pub fn instantiate(&mut self, ty: &Type)
        ensures
            *final(self) == old(self).spec_instantiate_at(0, ty),
    {
        let instantiated = self.instantiate_at(0, ty);
        *self = instantiated;
    }

    /// The type with the free variable `name` bound `level` binders out.
    pub open spec fn spec_abstract_name_at(&self, name: Name, level: u32) -> Type
        decreases self,
    {
        match self {
            Type::Var(Var::Free(free)) => if *free == name {
                Type::Var(Var::Bound(name, level))
            } else {
                *self
            },
            Type::Var(Var::Bound(_, _)) => *self,
            Type::Const(_) => *self,
            Type::Array(elem_ty, size_expr) => Type::Array(
                Box::new(elem_ty.spec_abstract_name_at(name, level)),
                *size_expr,
            ),
            Type::Union(tys) => Type::Union(tys.spec_abstract_name_at(name, level)),
            Type::Struct(fields) => Type::Struct(fields.spec_abstract_name_at(name, level)),
            Type::Cond(ty, pred_expr) => Type::Cond(
                Box::new(ty.spec_abstract_name_at(name, level)),
                *pred_expr,
            ),
            Type::Interp(ty, conv_expr, host_ty) => Type::Interp(
                Box::new(ty.spec_abstract_name_at(name, level)),
                *conv_expr,
                *host_ty,
            ),
            Type::Abs(param_name, param_kind, body_ty) => Type::Abs(
                *param_name,
                *param_kind,
                Box::new(body_ty.spec_abstract_name_at(name, next_level(level))),
            ),
            Type::App(fn_ty, arg_ty) => Type::App(
                Box::new(fn_ty.spec_abstract_name_at(name, level)),
                Box::new(arg_ty.spec_abstract_name_at(name, level)),
            ),
        }
    }

    /// The type with the free variable `name` bound `level` binders out.
    pub fn abstract_name_at(&self, name: Name, level: u32) -> (ty: Type)
        ensures
            ty == self.spec_abstract_name_at(name, level),
        decreases self,
    {
        match self {
            Type::Var(Var::Free(free)) => {
                if *free == name {
                    Type::Var(Var::Bound(name, level))
                } else {
                    self.clone()
                }
            },
            Type::Var(Var::Bound(_, _)) => self.clone(),
            Type::Const(_) => self.clone(),
            Type::Array(elem_ty, size_expr) => Type::Array(
                Box::new(elem_ty.abstract_name_at(name, level)),
                Box::new((**size_expr).clone()),
            ),
            Type::Union(tys) => Type::Union(tys.abstract_name_at(name, level)),
            Type::Struct(fields) => Type::Struct(fields.abstract_name_at(name, level)),
            Type::Cond(ty, pred_expr) => Type::Cond(
                Box::new(ty.abstract_name_at(name, level)),
                Box::new((**pred_expr).clone()),
            ),
            Type::Interp(ty, conv_expr, host_ty) => Type::Interp(
                Box::new(ty.abstract_name_at(name, level)),
                Box::new((**conv_expr).clone()),
                Box::new((**host_ty).clone()),
            ),
            Type::Abs(param_name, param_kind, body_ty) => Type::Abs(
                *param_name,
                param_kind.clone(),
                Box::new(body_ty.abstract_name_at(name, next(level))),
            ),
            Type::App(fn_ty, arg_ty) => Type::App(
                Box::new(fn_ty.abstract_name_at(name, level)),
                Box::new(arg_ty.abstract_name_at(name, level)),
            ),
        }
    }
}

/// The level one binder further in. Levels saturate at the largest one.
pub open spec fn next_level(level: u32) -> u32 {
    if level < u32::MAX {
        (level + 1) as u32
    } else {
        level
    }
}

/// The level one binder further in.
pub fn next(level: u32) -> (deeper: u32)
    ensures
        deeper == next_level(level),
{
    if level < u32::MAX {
        level + 1
    } else {
        level
    }
}

impl Types {
    pub open spec fn spec_repr(&self) -> Option<host::Types>
        decreases self,
    {
        match self {
            Types::Nil => Some(host::Types::Nil),
            Types::Cons(ty, rest) => match ty.spec_repr() {
                Some(repr) => match rest.spec_repr() {
                    Some(reprs) => Some(host::Types::Cons(Box::new(repr), Box::new(reprs))),
                    None => None,
                },
                None => None,
            },
        }
    }

    /// The representations of the types.
    pub fn repr(&self) -> (repr: Result<host::Types, ()>)
        ensures
            match repr {
                Ok(tys) => self.spec_repr() == Some(tys),
                Err(()) => self.spec_repr() is None,
            },
        decreases self,
    {
        match self {
            Types::Nil => Ok(host::Types::Nil),
            Types::Cons(ty, rest) => match ty.repr() {
                Ok(repr) => match rest.repr() {
                    Ok(reprs) => Ok(host::Types::Cons(Box::new(repr), Box::new(reprs))),
                    Err(()) => Err(()),
                },
                Err(()) => Err(()),
            },
        }
    }

    pub open spec fn spec_instantiate_at(&self, level: u32, src: &Type) -> Types
        decreases self,
    {
        match self {
            Types::Nil => Types::Nil,
            Types::Cons(ty, rest) => Types::Cons(
                Box::new(ty.spec_instantiate_at(level, src)),
                Box::new(rest.spec_instantiate_at(level, src)),
            ),
        }
    }

    pub fn instantiate_at(&self, level: u32, src: &Type) -> (tys: Types)
        ensures
            tys == self.spec_instantiate_at(level, src),
        decreases self,
    {
        match self {
            Types::Nil => Types::Nil,
            Types::Cons(ty, rest) => Types::Cons(
                Box::new(ty.instantiate_at(level, src)),
                Box::new(rest.instantiate_at(level, src)),
            ),
        }
    }

    pub open spec fn spec_abstract_name_at(&self, name: Name, level: u32) -> Types
        decreases self,
    {
        match self {
            Types::Nil => Types::Nil,
            Types::Cons(ty, rest) => Types::Cons(
                Box::new(ty.spec_abstract_name_at(name, level)),
                Box::new(rest.spec_abstract_name_at(name, level)),
            ),
        }
    }

    pub fn abstract_name_at(&self, name: Name, level: u32) -> (tys: Types)
        ensures
            tys == self.spec_abstract_name_at(name, level),
        decreases self,
    {
        match self {
            Types::Nil => Types::Nil,
            Types::Cons(ty, rest) => Types::Cons(
                Box::new(ty.abstract_name_at(name, level)),
                Box::new(rest.abstract_name_at(name, level)),
            ),
        }
    }
}

impl Fields {
    pub open spec fn spec_repr(&self) -> Option<host::Fields>
        decreases self,
    {
        match self {
            Fields::Nil => Some(host::Fields::Nil),
            Fields::Cons(name, ty, rest) => match ty.spec_repr() {
                Some(repr) => match rest.spec_repr() {
                    Some(reprs) => Some(host::Fields::Cons(*name, Box::new(repr), Box::new(reprs))),
                    None => None,
                },
                None => None,
            },
        }
    }

    /// The representations of the fields.
    pub fn repr(&self) -> (repr: Result<host::Fields, ()>)
        ensures
            match repr {
                Ok(fields) => self.spec_repr() == Some(fields),
                Err(()) => self.spec_repr() is None,
            },
        decreases self,
    {
        match self {
            Fields::Nil => Ok(host::Fields::Nil),
            Fields::Cons(name, ty, rest) => match ty.repr() {
                Ok(repr) => match rest.repr() {
                    Ok(reprs) => Ok(host::Fields::Cons(*name, Box::new(repr), Box::new(reprs))),
                    Err(()) => Err(()),
                },
                Err(()) => Err(()),
            },
        }
    }

    pub open spec fn spec_instantiate_at(&self, level: u32, src: &Type) -> Fields
        decreases self,
    {
        match self {
            Fields::Nil => Fields::Nil,
            Fields::Cons(name, ty, rest) => Fields::Cons(
                *name,
                Box::new(ty.spec_instantiate_at(level, src)),
                Box::new(rest.spec_instantiate_at(next_level(level), src)),
            ),
        }
    }

    pub fn instantiate_at(&self, level: u32, src: &Type) -> (fields: Fields)
        ensures
            fields == self.spec_instantiate_at(level, src),
        decreases self,
    {
        match self {
            Fields::Nil => Fields::Nil,
            Fields::Cons(name, ty, rest) => Fields::Cons(
                *name,
                Box::new(ty.instantiate_at(level, src)),
                Box::new(rest.instantiate_at(next(level), src)),
            ),
        }
    }

    pub open spec fn spec_abstract_name_at(&self, name: Name, level: u32) -> Fields
        decreases self,
    {
        match self {
            Fields::Nil => Fields::Nil,
            Fields::Cons(field_name, ty, rest) => Fields::Cons(
                *field_name,
                Box::new(ty.spec_abstract_name_at(name, level)),
                Box::new(rest.spec_abstract_name_at(name, next_level(level))),
            ),
        }
    }

    pub fn abstract_name_at(&self, name: Name, level: u32) -> (fields: Fields)
        ensures
            fields == self.spec_abstract_name_at(name, level),
        decreases self,
    {
        match self {
            Fields::Nil => Fields::Nil,
            Fields::Cons(field_name, ty, rest) => Fields::Cons(
                *field_name,
                Box::new(ty.abstract_name_at(name, level)),
                Box::new(rest.abstract_name_at(name, next(level))),
            ),
        }
    }
}

} // verus!
