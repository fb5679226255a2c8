//! Type and kind checking of the data description language.
//!
//! The checks assume that every bound variable is bound in the context. The
//! specifications say so with an answer of `None`, which the executable
//! functions rule out in their preconditions.

use crate::syntax::binary;
use crate::syntax::host;
use crate::syntax::{Binding, Ctx, Definition, Name, Var};
use vstd::pervasive::unreached;
use vstd::prelude::*;

verus! {

// Typing

/// An error that was encountered during type checking.
#[allow(inconsistent_fields)]
#[derive(Debug)]
pub enum TypeError {
    /// A variable of the requested name was not bound in this scope.
    UnboundVariable { expr: host::Expr, name: Name },
    /// Variable bound in the context was not at the value level.
    ExprBindingExpected { expr: host::Expr, found: (Name, Binding) },
    /// One type was expected, but another was found.
    Mismatch { expr: host::Expr, found: host::Type, expected: host::Type },
    /// Unexpected operand types in a binary operator expression.
    BinopOperands { expr: host::Expr, lhs_ty: host::Type, rhs_ty: host::Type },
    /// A field was missing when projecting on a record.
    MissingField { struct_expr: host::Expr, struct_ty: host::Type, field_name: Name },
}

/// What a check yields: nothing where a variable is bound outside the
/// context, and otherwise the answer or the error.
pub type Checked<T, E> = Option<Result<T, E>>;

/// The type of a unary operator applied to an operand of the given type.
pub open spec fn unop_ty(op: host::Unop, expr: host::Expr, expr_ty: host::Type) -> Result<
    host::Type,
    TypeError,
> {
    let expected = match op {
        host::Unop::Neg => host::TypeConst::Int,
        host::Unop::Not => host::TypeConst::Bool,
    };
    if expr_ty == host::Type::Const(expected) {
        Ok(host::Type::Const(expected))
    } else {
        Err(TypeError::Mismatch { expr, found: expr_ty, expected: host::Type::Const(expected) })
    }
}

/// The type constants of two types, where both are type constants.
pub open spec fn consts_of(lhs_ty: host::Type, rhs_ty: host::Type) -> Option<
    (host::TypeConst, host::TypeConst),
> {
    match (lhs_ty, rhs_ty) {
        (host::Type::Const(lhs), host::Type::Const(rhs)) => Some((lhs, rhs)),
        _ => None,
    }
}

/// The type that a binary operator gives on operands of the given type
/// constants, where it takes them: the relational operators take booleans,
/// the comparisons two operands of one type constant, and the arithmetic
/// operators integers.
pub open spec fn binop_const(op: host::Binop, lhs: host::TypeConst, rhs: host::TypeConst) -> Option<
    host::TypeConst,
> {
    match op {
        host::Binop::Or | host::Binop::And => if lhs == host::TypeConst::Bool && rhs
            == host::TypeConst::Bool {
            Some(host::TypeConst::Bool)
        } else {
            None
        },
        host::Binop::Eq
        | host::Binop::Ne
        | host::Binop::Le
        | host::Binop::Lt
        | host::Binop::Gt
        | host::Binop::Ge => if lhs == rhs {
            Some(host::TypeConst::Bool)
        } else {
            None
        },
        host::Binop::Add | host::Binop::Sub | host::Binop::Mul | host::Binop::Div => if lhs
            == host::TypeConst::Int && rhs == host::TypeConst::Int {
            Some(host::TypeConst::Int)
        } else {
            None
        },
    }
}

/// The type of a binary operator applied to operands of the given types.
pub open spec fn binop_ty(
    op: host::Binop,
    expr: host::Expr,
    lhs_ty: host::Type,
    rhs_ty: host::Type,
) -> Result<host::Type, TypeError> {
    match consts_of(lhs_ty, rhs_ty) {
        Some((lhs, rhs)) => match binop_const(op, lhs, rhs) {
            Some(constant) => Ok(host::Type::Const(constant)),
            None => Err(TypeError::BinopOperands { expr, lhs_ty, rhs_ty }),
        },
        None => Err(TypeError::BinopOperands { expr, lhs_ty, rhs_ty }),
    }
}

/// The type of a variable that is bound at the index `i`.
pub open spec fn var_ty(ctx: &Ctx, expr: host::Expr, i: u32) -> Checked<host::Type, TypeError> {
    match ctx.at(i) {
        Some((_, Binding::Expr(ty))) => Some(Ok(ty)),
        Some((name, binding)) => Some(
            Err(TypeError::ExprBindingExpected { expr, found: (name, binding) }),
        ),
        None => None,
    }
}

/// The type of a host expression in a context, or the error that shows
/// that it is not properly formed.
pub open spec fn spec_ty_of(ctx: &Ctx, expr: &host::Expr) -> Checked<host::Type, TypeError>
    decreases expr,
{
    match expr {
        host::Expr::Const(host::Const::Bit(_)) => Some(Ok(host::Type::Const(host::TypeConst::Bit))),
        host::Expr::Const(host::Const::Bool(_)) => Some(
            Ok(host::Type::Const(host::TypeConst::Bool)),
        ),
        host::Expr::Const(host::Const::Int(_)) => Some(Ok(host::Type::Const(host::TypeConst::Int))),
        host::Expr::Var(Var::Free(x)) => Some(
            Err(TypeError::UnboundVariable { expr: *expr, name: *x }),
        ),
        host::Expr::Var(Var::Bound(_, i)) => var_ty(ctx, *expr, *i),
        host::Expr::Prim(_, repr_ty) => Some(Ok(**repr_ty)),
        host::Expr::Unop(op, operand) => match spec_ty_of(ctx, operand) {
            Some(Ok(operand_ty)) => Some(unop_ty(*op, **operand, operand_ty)),
            other => other,
        },
        host::Expr::Binop(op, lhs_expr, rhs_expr) => match spec_ty_of(ctx, lhs_expr) {
            Some(Ok(lhs_ty)) => match spec_ty_of(ctx, rhs_expr) {
                Some(Ok(rhs_ty)) => Some(binop_ty(*op, *expr, lhs_ty, rhs_ty)),
                other => other,
            },
            other => other,
        },
        host::Expr::Proj(struct_expr, field_name) => match spec_ty_of(ctx, struct_expr) {
            Some(Ok(struct_ty)) => match struct_ty.spec_lookup_field(*field_name) {
                Some(field_ty) => Some(Ok(field_ty)),
                None => Some(
                    Err(
                        TypeError::MissingField {
                            struct_expr: **struct_expr,
                            struct_ty,
                            field_name: *field_name,
                        },
                    ),
                ),
            },
            other => other,
        },
        host::Expr::Abs(param_name, param_ty, body_expr) => match spec_ty_of(
            &ctx.extended(*param_name, Binding::Expr(**param_ty)),
            body_expr,
        ) {
            Some(Ok(body_ty)) => Some(
                Ok(host::Type::Arrow(Box::new(**param_ty), Box::new(body_ty))),
            ),
            other => other,
        },
    }
}

/// Returns the type of a host expression, checking that it is properly
/// formed in the environment.
pub fn ty_of(ctx: &Ctx, expr: &host::Expr) -> (result: Result<host::Type, TypeError>)
    requires
        spec_ty_of(ctx, expr) is Some,
    ensures
        Some(result) == spec_ty_of(ctx, expr),
    decreases expr,
{
    match expr {
        // Constants are easy!
        host::Expr::Const(host::Const::Bit(_)) => Ok(host::Type::bit_ty()),
        host::Expr::Const(host::Const::Bool(_)) => Ok(host::Type::bool_ty()),
        host::Expr::Const(host::Const::Int(_)) => Ok(host::Type::int_ty()),
        // Variables
        host::Expr::Var(Var::Free(x)) => Err(
            TypeError::UnboundVariable { expr: expr.clone(), name: *x },
        ),
        host::Expr::Var(Var::Bound(_, i)) => match ctx.lookup(*i) {
            Some((_, Binding::Expr(ty))) => Ok(ty.clone()),
            Some((name, binding)) => Err(
                TypeError::ExprBindingExpected { expr: expr.clone(), found: (*name, binding.clone()) },
            ),
            None => unreached(),
        },
        // Primitive expressions
        host::Expr::Prim(_, repr_ty) => Ok((**repr_ty).clone()),
        // Unary operators
        host::Expr::Unop(op, operand) => match ty_of(ctx, &**operand) {
            Ok(operand_ty) => match (op, operand_ty) {
                (host::Unop::Neg, host::Type::Const(host::TypeConst::Int)) => Ok(
                    host::Type::int_ty(),
                ),
                (host::Unop::Neg, operand_ty) => Err(
                    TypeError::Mismatch {
                        expr: (**operand).clone(),
                        found: operand_ty,
                        expected: host::Type::int_ty(),
                    },
                ),
                (host::Unop::Not, host::Type::Const(host::TypeConst::Bool)) => Ok(
                    host::Type::bool_ty(),
                ),
                (host::Unop::Not, operand_ty) => Err(
                    TypeError::Mismatch {
                        expr: (**operand).clone(),
                        found: operand_ty,
                        expected: host::Type::bool_ty(),
                    },
                ),
            },
            Err(error) => Err(error),
        },
        // Binary operators
        host::Expr::Binop(op, lhs_expr, rhs_expr) => {
            let lhs_ty = match ty_of(ctx, &**lhs_expr) {
                Ok(lhs_ty) => lhs_ty,
                Err(error) => {
                    return Err(error);
                },
            };
            let rhs_ty = match ty_of(ctx, &**rhs_expr) {
                Ok(rhs_ty) => rhs_ty,
                Err(error) => {
                    return Err(error);
                },
            };
            binop_ty_of(*op, expr, lhs_ty, rhs_ty)
        },
        // Field projection
        host::Expr::Proj(struct_expr, field_name) => {
            let struct_ty = match ty_of(ctx, &**struct_expr) {
                Ok(struct_ty) => struct_ty,
                Err(error) => {
                    return Err(error);
                },
            };
            let field_ty = match struct_ty.lookup_field(*field_name) {
                Some(field_ty) => Some(field_ty.clone()),
                None => None,
            };
            match field_ty {
                Some(field_ty) => Ok(field_ty),
                None => Err(
                    TypeError::MissingField {
                        struct_expr: (**struct_expr).clone(),
                        struct_ty,
                        field_name: *field_name,
                    },
                ),
            }
        },
        // Abstraction
        host::Expr::Abs(param_name, param_ty, body_expr) => {
            let mut ctx = ctx.clone();
            ctx.extend(*param_name, Binding::Expr((**param_ty).clone()));
            match ty_of(&ctx, &**body_expr) {
                Ok(body_ty) => Ok(host::Type::arrow((**param_ty).clone(), body_ty)),
                Err(error) => Err(error),
            }
        },
    }
}

/// The type of a binary operator applied to operands of the given types.
fn binop_ty_of(op: host::Binop, expr: &host::Expr, lhs_ty: host::Type, rhs_ty: host::Type) -> (result:
    Result<host::Type, TypeError>)
    ensures
        result == binop_ty(op, *expr, lhs_ty, rhs_ty),
{
    let found = match (&lhs_ty, &rhs_ty) {
        (host::Type::Const(lhs), host::Type::Const(rhs)) => match op {
            // Relational operators
            host::Binop::Or | host::Binop::And => match (lhs, rhs) {
                (host::TypeConst::Bool, host::TypeConst::Bool) => Some(host::Type::bool_ty()),
                (_, _) => None,
            },
            // Comparison operators
            host::Binop::Eq
            | host::Binop::Ne
            | host::Binop::Le
            | host::Binop::Lt
            | host::Binop::Gt
            | host::Binop::Ge => match (lhs, rhs) {
                (host::TypeConst::Bit, host::TypeConst::Bit)
                | (host::TypeConst::Bool, host::TypeConst::Bool)
                | (host::TypeConst::Int, host::TypeConst::Int) => Some(host::Type::bool_ty()),
                (_, _) => None,
            },
            // Arithmetic operators
            host::Binop::Add | host::Binop::Sub | host::Binop::Mul | host::Binop::Div => match (
                lhs,
                rhs,
            ) {
                (host::TypeConst::Int, host::TypeConst::Int) => Some(host::Type::int_ty()),
                (_, _) => None,
            },
        },
        (_, _) => None,
    };
    match found {
        Some(ty) => Ok(ty),
        None => Err(TypeError::BinopOperands { expr: expr.clone(), lhs_ty, rhs_ty }),
    }
}

// Kinding

/// The definition of the type that is bound at the index `i`, where the
/// binding is a definition.
pub open spec fn ty_def(ctx: &Ctx, i: u32) -> Option<Option<binary::Type>> {
    match ctx.at(i) {
        Some((_, Binding::TypeDef(def_ty, _))) => Some(Some(def_ty)),
        Some(_) => Some(None),
        None => None,
    }
}

/// One step of the simplification of a type: the definition of a variable
/// that is bound to one, or the body of a type function with the argument
/// that the function is applied to in place of its parameter.
pub open spec fn compute_ty(ctx: &Ctx, ty: &binary::Type) -> Option<Option<binary::Type>> {
    match ty {
        binary::Type::Var(Var::Bound(_, i)) => ty_def(ctx, *i),
        binary::Type::App(fn_ty, arg_ty) => match **fn_ty {
            binary::Type::Abs(_, _, body_ty) => Some(Some(body_ty.spec_instantiate_at(0, arg_ty))),
            _ => Some(None),
        },
        _ => Some(None),
    }
}

/// The type that is simplified first: the function of an application, and
/// any other type itself.
pub open spec fn spec_simplify_ty(limit: nat, ctx: &Ctx, ty: &binary::Type) -> Option<
    binary::Type,
>
    decreases limit,
{
    if limit == 0 {
        Some(*ty)
    } else {
        let start = match ty {
            binary::Type::App(fn_ty, _) => spec_simplify_ty((limit - 1) as nat, ctx, fn_ty),
            _ => Some(*ty),
        };
        match start {
            Some(start) => match compute_ty(ctx, &start) {
                Some(Some(next)) => spec_simplify_ty((limit - 1) as nat, ctx, &next),
                Some(None) => Some(start),
                None => None,
            },
            None => None,
        }
    }
}

/// Simplifies a type, in at most `limit` nested steps: definitions are
/// unfolded and applications of type functions reduced, as far as the
/// limit allows.
pub fn simplify_ty(ctx: &Ctx, ty: &binary::Type, limit: usize) -> (simplified: binary::Type)
    requires
        spec_simplify_ty(limit as nat, ctx, ty) is Some,
    ensures
        Some(simplified) == spec_simplify_ty(limit as nat, ctx, ty),
    decreases limit,
{
    if limit == 0 {
        return ty.clone();
    }
    let start = match ty {
        binary::Type::App(fn_ty, _) => simplify_ty(ctx, &**fn_ty, limit - 1),
        _ => ty.clone(),
    };
    let next = match &start {
        binary::Type::Var(Var::Bound(_, i)) => match ctx.lookup(*i) {
            Some((_, Binding::TypeDef(def_ty, _))) => Some(def_ty.clone()),
            Some(_) => None,
            None => unreached(),
        },
        binary::Type::App(fn_ty, arg_ty) => match &**fn_ty {
            binary::Type::Abs(_, _, body_ty) => Some(body_ty.instantiate_at(0, &**arg_ty)),
            _ => None,
        },
        _ => None,
    };
    match next {
        Some(next) => simplify_ty(ctx, &next, limit - 1),
        None => start,
    }
}

/// An error that was encountered during kind checking.
#[allow(inconsistent_fields)]
#[derive(Debug)]
pub enum KindError {
    /// A variable of the requested name was not bound in this scope.
    UnboundVariable { ty: binary::Type, name: Name },
    /// Variable bound in the context was not at the type level.
    TypeBindingExpected { ty: binary::Type, found: (Name, Binding) },
    /// One kind was expected, but another was found.
    Mismatch { ty: binary::Type, expected: binary::Kind, found: binary::Kind },
    /// No host representation was found for this type.
    NoReprForType { ty: binary::Type },
    /// A type error.
    Type(TypeError),
}

impl KindError {
    /// The kind error that a type error stands for.
    pub fn from(src: TypeError) -> (error: KindError)
        ensures
            error == KindError::Type(src),
    {
        KindError::Type(src)
    }
}

/// The kind of a type variable that is bound at the index `i`.
pub open spec fn var_kind(ctx: &Ctx, ty: binary::Type, i: u32) -> Checked<binary::Kind, KindError> {
    match ctx.at(i) {
        Some((_, Binding::Type(kind))) => Some(Ok(kind)),
        Some((_, Binding::TypeDef(_, kind))) => Some(Ok(kind)),
        Some((name, binding)) => Some(
            Err(KindError::TypeBindingExpected { ty, found: (name, binding) }),
        ),
        None => None,
    }
}

/// Whether an expression is of the expected type.
pub open spec fn spec_expect_ty(ctx: &Ctx, expr: &host::Expr, expected: host::Type) -> Checked<
    host::Type,
    TypeError,
> {
    match spec_ty_of(ctx, expr) {
        Some(Ok(found)) => if found == expected {
            Some(Ok(found))
        } else {
            Some(Err(TypeError::Mismatch { expr: *expr, expected, found }))
        },
        other => other,
    }
}

/// The answer of a type check as that of a kind check.
pub open spec fn lifted(checked: Checked<host::Type, TypeError>) -> Checked<(), KindError> {
    match checked {
        Some(Ok(_)) => Some(Ok(())),
        Some(Err(error)) => Some(Err(KindError::Type(error))),
        None => None,
    }
}

/// Whether a type is of the expected kind.
pub open spec fn spec_expect_kind(
    limit: nat,
    ctx: &Ctx,
    ty: &binary::Type,
    expected: binary::Kind,
) -> Checked<binary::Kind, KindError>
    decreases ty, 1nat,
{
    match spec_kind_of(limit, ctx, ty) {
        Some(Ok(found)) => if found == expected {
            Some(Ok(found))
        } else {
            Some(Err(KindError::Mismatch { ty: *ty, expected, found }))
        },
        other => other,
    }
}

/// Whether a type describes data.
pub open spec fn spec_expect_ty_kind(limit: nat, ctx: &Ctx, ty: &binary::Type) -> Checked<
    (),
    KindError,
>
    decreases ty, 2nat,
{
    match spec_expect_kind(limit, ctx, ty, binary::Kind::Type) {
        Some(Ok(_)) => Some(Ok(())),
        Some(Err(error)) => Some(Err(error)),
        None => None,
    }
}

/// Whether a type that describes data, with the expression that it depends
/// on, is well formed: the expression has to be a function from the
/// representation of the type to the given type.
pub open spec fn refined_kind(
    limit: nat,
    ctx: &Ctx,
    ty: &binary::Type,
    expr: &host::Expr,
    ret_ty: host::Type,
) -> Checked<binary::Kind, KindError>
    decreases ty, 3nat,
{
    match spec_expect_ty_kind(limit, ctx, ty) {
        Some(Ok(())) => match ty.spec_repr() {
            Some(repr) => match lifted(
                spec_expect_ty(ctx, expr, host::Type::Arrow(Box::new(repr), Box::new(ret_ty))),
            ) {
                Some(Ok(())) => Some(Ok(binary::Kind::Type)),
                Some(Err(error)) => Some(Err(error)),
                None => None,
            },
            None => None,
        },
        Some(Err(error)) => Some(Err(error)),
        None => None,
    }
}

/// The kind of a binary type in a context, or the error that shows that it
/// is not properly formed. The types of the fields of a struct are
/// simplified in at most `limit` nested steps.
pub open spec fn spec_kind_of(limit: nat, ctx: &Ctx, ty: &binary::Type) -> Checked<
    binary::Kind,
    KindError,
>
    decreases ty, 0nat,
{
    match ty {
        binary::Type::Var(Var::Free(x)) => Some(
            Err(KindError::UnboundVariable { ty: *ty, name: *x }),
        ),
        binary::Type::Var(Var::Bound(_, i)) => var_kind(ctx, *ty, *i),
        binary::Type::Const(binary::TypeConst::Bit) => Some(Ok(binary::Kind::Type)),
        binary::Type::Array(elem_ty, size_expr) => match spec_expect_ty_kind(limit, ctx, elem_ty) {
            Some(Ok(())) => match lifted(
                spec_expect_ty(ctx, size_expr, host::Type::Const(host::TypeConst::Int)),
            ) {
                Some(Ok(())) => Some(Ok(binary::Kind::Type)),
                Some(Err(error)) => Some(Err(error)),
                None => None,
            },
            Some(Err(error)) => Some(Err(error)),
            None => None,
        },
        binary::Type::Cond(inner, pred_expr) => refined_kind(
            limit,
            ctx,
            inner,
            pred_expr,
            host::Type::Const(host::TypeConst::Bool),
        ),
        binary::Type::Interp(inner, conv_expr, host_ty) => refined_kind(
            limit,
            ctx,
            inner,
            conv_expr,
            **host_ty,
        ),
        binary::Type::Abs(name, param_kind, body_ty) => match spec_kind_of(
            limit,
            &ctx.extended(*name, Binding::Type(*param_kind)),
            body_ty,
        ) {
            Some(Ok(body_kind)) => Some(
                Ok(binary::Kind::Arrow(Box::new(*param_kind), Box::new(body_kind))),
            ),
            other => other,
        },
        binary::Type::Union(tys) => union_kind(limit, ctx, tys),
        binary::Type::Struct(fields) => struct_kind(limit, ctx, fields),
        binary::Type::App(fn_ty, arg_ty) => match spec_kind_of(limit, ctx, fn_ty) {
            Some(Ok(binary::Kind::Type)) => Some(
                Err(
                    KindError::Mismatch {
                        ty: **fn_ty,
                        found: binary::Kind::Type,
                        expected: binary::Kind::Arrow(
                            Box::new(binary::Kind::Type),
                            Box::new(binary::Kind::Type),
                        ),
                    },
                ),
            ),
            Some(Ok(binary::Kind::Arrow(param_kind, ret_kind))) => match spec_expect_kind(
                limit,
                ctx,
                arg_ty,
                *param_kind,
            ) {
                Some(Ok(_)) => Some(Ok(*ret_kind)),
                other => other,
            },
            other => other,
        },
    }
}

/// Whether each member of a union describes data.
pub open spec fn union_kind(limit: nat, ctx: &Ctx, tys: &binary::Types) -> Checked<
    binary::Kind,
    KindError,
>
    decreases tys, 0nat,
{
    match tys {
        binary::Types::Nil => Some(Ok(binary::Kind::Type)),
        binary::Types::Cons(ty, rest) => match spec_expect_ty_kind(limit, ctx, ty) {
            Some(Ok(())) => union_kind(limit, ctx, rest),
            Some(Err(error)) => Some(Err(error)),
            None => None,
        },
    }
}

/// Whether each field of a struct describes data, in the scope of the
/// fields before it: each field is bound, for the fields after it, to an
/// expression of the representation of its simplified type.
pub open spec fn struct_kind(limit: nat, ctx: &Ctx, fields: &binary::Fields) -> Checked<
    binary::Kind,
    KindError,
>
    decreases fields, 0nat,
{
    match fields {
        binary::Fields::Nil => Some(Ok(binary::Kind::Type)),
        binary::Fields::Cons(name, ty, rest) => match spec_expect_ty_kind(limit, ctx, ty) {
            Some(Ok(())) => match spec_simplify_ty(limit, ctx, ty) {
                Some(field_ty) => match field_ty.spec_repr() {
                    Some(repr_ty) => struct_kind(
                        limit,
                        &ctx.extended(*name, Binding::Expr(repr_ty)),
                        rest,
                    ),
                    None => Some(Err(KindError::NoReprForType { ty: field_ty })),
                },
                None => None,
            },
            Some(Err(error)) => Some(Err(error)),
            None => None,
        },
    }
}

fn expect_ty(ctx: &Ctx, expr: &host::Expr, expected: host::Type) -> (result: Result<
    host::Type,
    TypeError,
>)
    requires
        spec_expect_ty(ctx, expr, expected) is Some,
    ensures
        Some(result) == spec_expect_ty(ctx, expr, expected),
{
    let found = match ty_of(ctx, expr) {
        Ok(found) => found,
        Err(error) => {
            return Err(error);
        },
    };
    if found == expected {
        Ok(found)
    } else {
        Err(TypeError::Mismatch { expr: expr.clone(), expected, found })
    }
}

/// Checks an expression against a type as a step of a kind check.
fn expect_kinded_ty(ctx: &Ctx, expr: &host::Expr, expected: host::Type) -> (result: Result<
    (),
    KindError,
>)
    requires
        lifted(spec_expect_ty(ctx, expr, expected)) is Some,
    ensures
        Some(result) == lifted(spec_expect_ty(ctx, expr, expected)),
{
    match expect_ty(ctx, expr, expected) {
        Ok(_) => Ok(()),
        Err(error) => Err(KindError::from(error)),
    }
}

fn expect_kind(ctx: &Ctx, ty: &binary::Type, expected: binary::Kind, limit: usize) -> (result: Result<
    binary::Kind,
    KindError,
>)
    requires
        spec_expect_kind(limit as nat, ctx, ty, expected) is Some,
    ensures
        Some(result) == spec_expect_kind(limit as nat, ctx, ty, expected),
    decreases ty, 1nat,
{
    let found = match kind_of(ctx, ty, limit) {
        Ok(found) => found,
        Err(error) => {
            return Err(error);
        },
    };
    if found == expected {
        Ok(found)
    } else {
        Err(KindError::Mismatch { ty: ty.clone(), expected, found })
    }
}

fn expect_ty_kind(ctx: &Ctx, ty: &binary::Type, limit: usize) -> (result: Result<(), KindError>)
    requires
        spec_expect_ty_kind(limit as nat, ctx, ty) is Some,
    ensures
        Some(result) == spec_expect_ty_kind(limit as nat, ctx, ty),
    decreases ty, 2nat,
{
    match expect_kind(ctx, ty, binary::Kind::Type, limit) {
        Ok(_) => Ok(()),
        Err(error) => Err(error),
    }
}

/// Checks a type that depends on an expression of its representation.
fn refined_kind_of(
    ctx: &Ctx,
    ty: &binary::Type,
    expr: &host::Expr,
    ret_ty: host::Type,
    limit: usize,
) -> (result: Result<binary::Kind, KindError>)
    requires
        refined_kind(limit as nat, ctx, ty, expr, ret_ty) is Some,
    ensures
        Some(result) == refined_kind(limit as nat, ctx, ty, expr, ret_ty),
    decreases ty, 3nat,
{
    match expect_ty_kind(ctx, ty, limit) {
        Ok(()) => {},
        Err(error) => {
            return Err(error);
        },
    }
    let repr = match ty.repr() {
        Ok(repr) => repr,
        Err(()) => unreached(),
    };
    match expect_kinded_ty(ctx, expr, host::Type::arrow(repr, ret_ty)) {
        Ok(()) => Ok(binary::Kind::Type),
        Err(error) => Err(error),
    }
}

/// Returns the kind of a binary type, checking that it is properly formed
/// in the environment.
pub fn kind_of(ctx: &Ctx, ty: &binary::Type, limit: usize) -> (result: Result<
    binary::Kind,
    KindError,
>)
    requires
        spec_kind_of(limit as nat, ctx, ty) is Some,
    ensures
        Some(result) == spec_kind_of(limit as nat, ctx, ty),
    decreases ty, 0nat,
{
    match ty {
        // Variables
        binary::Type::Var(Var::Free(x)) => Err(
            KindError::UnboundVariable { ty: ty.clone(), name: *x },
        ),
        binary::Type::Var(Var::Bound(_, i)) => match ctx.lookup(*i) {
            Some((_, Binding::Type(kind))) => Ok(kind.clone()),
            Some((_, Binding::TypeDef(_, kind))) => Ok(kind.clone()),
            Some((name, binding)) => Err(
                KindError::TypeBindingExpected { ty: ty.clone(), found: (*name, binding.clone()) },
            ),
            None => unreached(),
        },
        // Bit type
        binary::Type::Const(binary::TypeConst::Bit) => Ok(binary::Kind::Type),
        // Array types
        binary::Type::Array(elem_ty, size_expr) => {
            match expect_ty_kind(ctx, &**elem_ty, limit) {
                Ok(()) => {},
                Err(error) => {
                    return Err(error);
                },
            }
            match expect_kinded_ty(ctx, &**size_expr, host::Type::int_ty()) {
                Ok(()) => Ok(binary::Kind::Type),
                Err(error) => Err(error),
            }
        },
        // Conditional types
        binary::Type::Cond(inner, pred_expr) => refined_kind_of(
            ctx,
            &**inner,
            &**pred_expr,
            host::Type::bool_ty(),
            limit,
        ),
        // Interpreted types
        binary::Type::Interp(inner, conv_expr, host_ty) => refined_kind_of(
            ctx,
            &**inner,
            &**conv_expr,
            (**host_ty).clone(),
            limit,
        ),
        // Type abstraction
        binary::Type::Abs(name, param_kind, body_ty) => {
            let mut ctx = ctx.clone();
            ctx.extend(*name, Binding::Type(param_kind.clone()));
            match kind_of(&ctx, &**body_ty, limit) {
                Ok(body_kind) => Ok(binary::Kind::arrow(param_kind.clone(), body_kind)),
                Err(error) => Err(error),
            }
        },
        // Union types
        binary::Type::Union(tys) => union_kind_of(ctx, tys, limit),
        // Struct type
        binary::Type::Struct(fields) => struct_kind_of(ctx.clone(), fields, limit),
        // Type application
        binary::Type::App(fn_ty, arg_ty) => match kind_of(ctx, &**fn_ty, limit) {
            Ok(binary::Kind::Type) => Err(
                KindError::Mismatch {
                    ty: (**fn_ty).clone(),
                    found: binary::Kind::Type,
                    expected: binary::Kind::arrow(binary::Kind::Type, binary::Kind::Type),
                },
            ),
            Ok(binary::Kind::Arrow(param_kind, ret_kind)) => match expect_kind(
                ctx,
                &**arg_ty,
                *param_kind,
                limit,
            ) {
                Ok(_) => Ok(*ret_kind),
                Err(error) => Err(error),
            },
            Err(error) => Err(error),
        },
    }
}

/// Checks the members of a union.
fn union_kind_of(ctx: &Ctx, tys: &binary::Types, limit: usize) -> (result: Result<
    binary::Kind,
    KindError,
>)
    requires
        union_kind(limit as nat, ctx, tys) is Some,
    ensures
        Some(result) == union_kind(limit as nat, ctx, tys),
    decreases tys, 0nat,
{
    match tys {
        binary::Types::Nil => Ok(binary::Kind::Type),
        binary::Types::Cons(ty, rest) => match expect_ty_kind(ctx, &**ty, limit) {
            Ok(()) => union_kind_of(ctx, &**rest, limit),
            Err(error) => Err(error),
        },
    }
}

/// Checks the fields of a struct, each in the scope of those before it.
fn struct_kind_of(ctx: Ctx, fields: &binary::Fields, limit: usize) -> (result: Result<
    binary::Kind,
    KindError,
>)
    requires
        struct_kind(limit as nat, &ctx, fields) is Some,
    ensures
        Some(result) == struct_kind(limit as nat, &ctx, fields),
    decreases fields, 0nat,
{
    match fields {
        binary::Fields::Nil => Ok(binary::Kind::Type),
        binary::Fields::Cons(name, ty, rest) => {
            match expect_ty_kind(&ctx, &**ty, limit) {
                Ok(()) => {},
                Err(error) => {
                    return Err(error);
                },
            }
            let field_ty = simplify_ty(&ctx, &**ty, limit);
            let repr_ty = match field_ty.repr() {
                Ok(repr_ty) => repr_ty,
                Err(()) => {
                    return Err(KindError::NoReprForType { ty: field_ty });
                },
            };
            let mut ctx = ctx;
            ctx.extend(*name, Binding::Expr(repr_ty));
            struct_kind_of(ctx, &**rest, limit)
        },
    }
}

/// The type with the names that were seen, from position `level` on
/// counted from the most recent one, bound: the most recent name at level
/// 0, the one before at level 1, and so on.
pub open spec fn abstract_seen(ty: binary::Type, seen: Seq<Name>, level: nat) -> binary::Type
    decreases seen.len() - level,
{
    if level >= seen.len() || level > u32::MAX {
        ty
    } else {
        abstract_seen(
            ty.spec_abstract_name_at(seen[seen.len() - 1 - level], level as u32),
            seen,
            level + 1,
        )
    }
}

/// The type with the definitions of a context put in, from the binding at
/// index `i` up to `count`, each for the variable that the nearest binder
/// binds.
pub open spec fn instantiate_defs(ty: binary::Type, ctx: &Ctx, count: nat, i: nat) -> Option<
    binary::Type,
>
    decreases count - i,
{
    if i >= count || i > u32::MAX {
        Some(ty)
    } else {
        match ty_def(ctx, i as u32) {
            Some(Some(def_ty)) => instantiate_defs(
                ty.spec_instantiate_at(0, &def_ty),
                ctx,
                count,
                i + 1,
            ),
            _ => None,
        }
    }
}

/// Whether the definitions from position `from` on are well formed, each in
/// the scope of those before it.
pub open spec fn spec_check_defs(
    limit: nat,
    ctx: &Ctx,
    seen: Seq<Name>,
    defs: Seq<Definition>,
    from: nat,
) -> Checked<(), KindError>
    decreases defs.len() - from,
{
    if from >= defs.len() {
        Some(Ok(()))
    } else {
        let def = defs[from as int];
        match instantiate_defs(abstract_seen(def.ty, seen, 0), ctx, seen.len(), 0) {
            Some(def_ty) => match spec_kind_of(limit, ctx, &def_ty) {
                Some(Ok(def_kind)) => spec_check_defs(
                    limit,
                    &ctx.extended(def.name, Binding::TypeDef(def_ty, def_kind)),
                    seen.push(def.name),
                    defs,
                    from + 1,
                ),
                Some(Err(error)) => Some(Err(error)),
                None => None,
            },
            None => None,
        }
    }
}

/// Checks a series of definitions, each of which may refer to those before
/// it by name: the names are bound, the definitions put in their place,
/// and the kind of the result is checked.
pub fn check_defs(defs: &Vec<Definition>, limit: usize) -> (result: Result<(), KindError>)
    requires
        defs@.len() <= u32::MAX,
        spec_check_defs(limit as nat, &Ctx::empty(), Seq::empty(), defs@, 0) is Some,
    ensures
        Some(result) == spec_check_defs(limit as nat, &Ctx::empty(), Seq::empty(), defs@, 0),
{
    let mut ctx = Ctx::new();
    // We maintain a list of the seen definition names. This will allow us to
    // recover the index of these variables as we abstract later definitions.
    let mut seen_names: Vec<Name> = Vec::new();
    let mut i: usize = 0;
    while i < defs.len()
        invariant
            i <= defs.len(),
            defs@.len() <= u32::MAX,
            seen_names@.len() == i,
            spec_check_defs(limit as nat, &ctx, seen_names@, defs@, i as nat) is Some,
            spec_check_defs(limit as nat, &Ctx::empty(), Seq::empty(), defs@, 0) == spec_check_defs(
                limit as nat,
                &ctx,
                seen_names@,
                defs@,
                i as nat,
            ),
        decreases defs.len() - i,
    {
        let def = &defs[i];
        let def_ty = abstract_seen_names(def.ty.clone(), &seen_names);
        let def_ty = instantiate_seen_defs(def_ty, &ctx, seen_names.len());
        let def_kind = match kind_of(&ctx, &def_ty, limit) {
            Ok(def_kind) => def_kind,
            Err(error) => {
                return Err(error);
            },
        };
        ctx.extend(def.name, Binding::TypeDef(def_ty, def_kind));
        // Record that the definition has been 'seen'
        seen_names.push(def.name);
        i = i + 1;
    }
    Ok(())
}

/// Binds the names that were seen in a type.
fn abstract_seen_names(ty: binary::Type, seen_names: &Vec<Name>) -> (abstracted: binary::Type)
    requires
        seen_names@.len() <= u32::MAX,
    ensures
        abstracted == abstract_seen(ty, seen_names@, 0),
{
    let mut abstracted = ty;
    let mut level: usize = 0;
    while level < seen_names.len()
        invariant
            level <= seen_names.len(),
            seen_names@.len() <= u32::MAX,
            abstract_seen(ty, seen_names@, 0) == abstract_seen(
                abstracted,
                seen_names@,
                level as nat,
            ),
        decreases seen_names.len() - level,
    {
        let name = seen_names[seen_names.len() - 1 - level];
        abstracted = abstracted.abstract_name_at(name, level as u32);
        level = level + 1;
    }
    abstracted
}

/// Puts the definitions of a context in a type.
fn instantiate_seen_defs(ty: binary::Type, ctx: &Ctx, count: usize) -> (instantiated: binary::Type)
    requires
        count <= u32::MAX,
        instantiate_defs(ty, ctx, count as nat, 0) is Some,
    ensures
        Some(instantiated) == instantiate_defs(ty, ctx, count as nat, 0),
{
    let mut instantiated = ty;
    let mut i: usize = 0;
    while i < count
        invariant
            i <= count,
            count <= u32::MAX,
            instantiate_defs(ty, ctx, count as nat, 0) is Some,
            instantiate_defs(ty, ctx, count as nat, 0) == instantiate_defs(
                instantiated,
                ctx,
                count as nat,
                i as nat,
            ),
        decreases count - i,
    {
        match ctx.lookup(i as u32) {
            Some((_, Binding::TypeDef(def_ty, _))) => {
                instantiated.instantiate(def_ty);
            },
            _ => unreached(),
        }
        i = i + 1;
    }
    instantiated
}

} // verus!
