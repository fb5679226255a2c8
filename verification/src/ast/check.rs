//! Typechecking of the early form of the data description language.
//!
//! # Syntax
//!
//! ## Kinds
//!
//! ```plain
//! κ ::=
//!         Type        kind of types
//! ```
//!
//! ## Expressions
//!
//! ```plain
//! e ::=
//!         x                   variables
//!         ℕ                   natural number
//!         true                true value
//!         false               false value
//!         -e                  negation
//!         ¬e                  not
//!         op(Rel, e₁, e₂)     relational binary operation
//!         op(Cmp, e₁, e₂)     comparison binary operation
//!         op(Arith, e₁, e₂)   arithmetic binary operation
//! ```
//!
//! ## Types
//!
//! ```plain
//! c ::=
//!         Bool                booleans
//!         UInt(ℕ, E)          unsigned integer with byte size and endianness
//!         Int(ℕ, E)           signed integer with byte size and endianness
//!         SingletonUInt(n)    a single unsigned integer
//!
//! τ ::=
//!         c                   type constants
//!         α                   variables
//!         τ₁ + τ₂             sum
//!         Σ x:τ₁ .τ₂          dependent pair
//!         [τ; e]              array
//!         { x:τ | e }         constrained type
//! ```

use crate::ast::env::Env;
use crate::ast::{
    same_type, Binop, Const, Definition, Expr, Fields, Kind, Name, Span, Type, Types, Unop,
};
use vstd::prelude::*;

verus! {

#[derive(Debug)]
pub enum KindError {
    Type(TypeError),
    UnboundType(Span, Name),
    ArraySizeExpectedUInt(Span, Type),
    WherePredicateExpectedBool(Span, Type),
}

impl KindError {
    /// The kind error that a type error stands for.
    pub fn from(src: TypeError) -> (error: KindError)
        ensures
            error == KindError::Type(src),
    {
        KindError::Type(src)
    }
}

#[derive(Debug)]
pub enum TypeError {
    UnboundVariable(Span, Name),
    UnexpectedUnaryOperand(Span, Unop, Type),
    UnexpectedBinaryLhs(Span, Type),
    UnexpectedBinaryRhs(Span, Type),
}

/// What a check yields: nothing where the rules give no answer, and
/// otherwise the answer or the error.
pub type Checked<T, E> = Option<Result<T, E>>;

/// The subtyping relation: `τ₁ <: τ₂`
///
/// # Rules
///
/// ```plain
/// ―――――――――――――――――――― (S-REFL)
///        τ <: τ
///
///                  ℕ₁ ≤ ℕ₂
/// ―――――――――――――――――――――――――――――――――――――――――― (S-SINGLETON-UINT)
///   SingletonUInt(ℕ₁) <: SingletonUInt(ℕ₂)
///
/// ――――――――――――――――――――――――――――――――――――― (S-UINT)
///    SingletonUInt(ℕ₂) <: UInt(ℕ₁, E)
///
/// ――――――――――――――――――――――――――――――――――――― (S-INT)
///    SingletonUInt(ℕ₂) <: Int(ℕ₁, E)
/// ```
pub open spec fn spec_is_subtype(sty: &Type, ty: &Type) -> bool {
    *sty == *ty || match (sty, ty) {
        (Type::SingletonUInt(sn), Type::SingletonUInt(n)) => *sn <= *n,
        (Type::SingletonUInt(_), Type::UInt(_, _)) => true,
        (Type::SingletonUInt(_), Type::SInt(_, _)) => true,
        (_, _) => false,
    }
}

/// Whether the first type is a subtype of the second.
pub fn is_subtype(sty: &Type, ty: &Type) -> (subtype: bool)
    ensures
        subtype == spec_is_subtype(sty, ty),
{
    // S-REFL
    if same_type(sty, ty) {
        return true;
    }
    match (sty, ty) {
        // S-SINGLETON-UINT
        (Type::SingletonUInt(sn), Type::SingletonUInt(n)) => *sn <= *n,
        // S-UINT, S-INT
        (Type::SingletonUInt(_), Type::UInt(_, _)) => true,
        (Type::SingletonUInt(_), Type::SInt(_, _)) => true,
        (_, _) => false,
    }
}

/// Whether a type takes the place of an integer: whether every unsigned
/// integer constant is of that type.
pub open spec fn is_numeric(ty: &Type) -> bool {
    spec_is_subtype(&Type::SingletonUInt(0), ty)
}

/// The type of the two operands of a comparison or an arithmetic operator
/// that is the supertype of the other, where there is one that takes the
/// place of an integer. The type of the right operand comes first.
pub open spec fn joined(lhs_ty: Type, rhs_ty: Type) -> Option<Type> {
    if spec_is_subtype(&lhs_ty, &rhs_ty) && is_numeric(&rhs_ty) {
        Some(rhs_ty)
    } else if spec_is_subtype(&rhs_ty, &lhs_ty) && is_numeric(&lhs_ty) {
        Some(lhs_ty)
    } else {
        None
    }
}

/// The typing relation: `Γ ⊢ e : τ`
///
/// # Rules
///
/// ```plain
/// ―――――――――――――――――――――――――――― (T-TRUE)
///       Γ ⊢ true : Bool
///
/// ―――――――――――――――――――――――――――― (T-FALSE)
///       Γ ⊢ false : Bool
///
/// ―――――――――――――――――――――――――――― (T-SINGLETON-UINT)
///   Γ ⊢ ℕ : SingletonUInt(ℕ)
///
///           x : τ ∈ Γ
/// ―――――――――――――――――――――――――――― (T-VAR)
///           Γ ⊢ x : τ
///
///         Γ ⊢ e : Bool
/// ―――――――――――――――――――――――――――― (T-NOT)
///         Γ ⊢ ¬e : Bool
///
///     Γ ⊢ e : τ       SingletonUInt(ℕ) <: τ
/// ――――――――――――――――――――――――――――――――――――――――― (T-NEG)
///              Γ ⊢ -e : τ
///
///      Γ ⊢ e₁ : Bool       Γ ⊢ e₂ : Bool
/// ――――――――――――――――――――――――――――――――――――――――― (T-REL)
///         Γ ⊢ op(Rel, e₁, e₂) : Bool
///
///   Γ ⊢ e₁ : τ₁     Γ ⊢ e₂ : τ₂      τ₁ <: τ₂      SingletonUInt(ℕ) <: τ₂
/// ―――――――――――――――――――――――――――――――――――――――――――――――――――――――――――――――――――――― (T-CMP-LHS)
///                      Γ ⊢ op(Cmp, e₁, e₂) : Bool
///
///   Γ ⊢ e₁ : τ₁     Γ ⊢ e₂ : τ₂      τ₂ <: τ₁      SingletonUInt(ℕ) <: τ₁
/// ―――――――――――――――――――――――――――――――――――――――――――――――――――――――――――――――――――――― (T-CMP-RHS)
///                      Γ ⊢ op(Cmp, e₁, e₂) : Bool
///
///   Γ ⊢ e₁ : τ₁    Γ ⊢ e₂ : τ₂      τ₁ <: τ₂      SingletonUInt(ℕ) <: τ₂
/// ――――――――――――――――――――――――――――――――――――――――――――――――――――――――――――――――――――― (T-ARITH-LHS)
///                    Γ ⊢ op(Arith, e₁, e₂) : τ₂
///
///   Γ ⊢ e₁ : τ₁    Γ ⊢ e₂ : τ₂      τ₂ <: τ₁      SingletonUInt(ℕ) <: τ₁
/// ――――――――――――――――――――――――――――――――――――――――――――――――――――――――――――――――――――― (T-ARITH-RHS)
///                    Γ ⊢ op(Arith, e₁, e₂) : τ₁
/// ```
///
/// The rules give no answer for a comparison or an arithmetic operator
/// whose operands have no supertype that takes the place of an integer.
pub open spec fn spec_type_of(env: &Env, expr: &Expr) -> Checked<Type, TypeError>
    decreases expr,
{
    match expr {
        Expr::Const(_, Const::Bool(_)) => Some(Ok(Type::Bool)),
        Expr::Const(_, Const::UInt(value)) => Some(Ok(Type::SingletonUInt(*value))),
        Expr::Var(span, name) => match env.spec_lookup_binding(*name) {
            Some(ty) => Some(Ok(ty)),
            None => Some(Err(TypeError::UnboundVariable(*span, *name))),
        },
        Expr::Unop(span, op, value) => match spec_type_of(env, value) {
            Some(Ok(value_ty)) => Some(unop_type(*span, *op, value_ty)),
            other => other,
        },
        Expr::Binop(span, op, lhs, rhs) => match spec_type_of(env, lhs) {
            Some(Ok(lhs_ty)) => match spec_type_of(env, rhs) {
                Some(Ok(rhs_ty)) => binop_type(*span, *op, lhs_ty, rhs_ty),
                other => other,
            },
            other => other,
        },
    }
}

/// The type of a unary operator applied to an operand of the given type.
pub open spec fn unop_type(span: Span, op: Unop, value_ty: Type) -> Result<Type, TypeError> {
    match op {
        Unop::Not => if value_ty == Type::Bool {
            Ok(Type::Bool)
        } else {
            Err(TypeError::UnexpectedUnaryOperand(span, op, value_ty))
        },
        Unop::Neg => if is_numeric(&value_ty) {
            Ok(value_ty)
        } else {
            Err(TypeError::UnexpectedUnaryOperand(span, op, value_ty))
        },
    }
}

/// The type of a binary operator applied to operands of the given types.
pub open spec fn binop_type(span: Span, op: Binop, lhs_ty: Type, rhs_ty: Type) -> Checked<
    Type,
    TypeError,
> {
    match op {
        Binop::Or | Binop::And => if lhs_ty != Type::Bool {
            Some(Err(TypeError::UnexpectedBinaryLhs(span, lhs_ty)))
        } else if rhs_ty != Type::Bool {
            Some(Err(TypeError::UnexpectedBinaryRhs(span, rhs_ty)))
        } else {
            Some(Ok(Type::Bool))
        },
        Binop::Eq | Binop::Ne | Binop::Le | Binop::Lt | Binop::Gt | Binop::Ge => match joined(
            lhs_ty,
            rhs_ty,
        ) {
            Some(_) => Some(Ok(Type::Bool)),
            None => None,
        },
        Binop::Add | Binop::Sub | Binop::Mul | Binop::Div => match joined(lhs_ty, rhs_ty) {
            Some(ty) => Some(Ok(ty)),
            None => None,
        },
    }
}

/// The type of an expression in an environment.
pub fn type_of(env: &Env, expr: &Expr) -> (result: Result<Type, TypeError>)
    requires
        spec_type_of(env, expr) is Some,
    ensures
        Some(result) == spec_type_of(env, expr),
    decreases expr,
{
    match expr {
        // T-TRUE, T-FALSE
        Expr::Const(_, Const::Bool(_)) => Ok(Type::Bool),
        // T-SINGLETON-UINT
        Expr::Const(_, Const::UInt(value)) => Ok(Type::SingletonUInt(*value)),
        // T-VAR
        Expr::Var(span, name) => match env.lookup_binding(*name) {
            Some(ty) => Ok(ty.clone()),
            None => Err(TypeError::UnboundVariable(*span, *name)),
        },
        Expr::Unop(span, op, value) => {
            let value_ty = match type_of(env, &**value) {
                Ok(value_ty) => value_ty,
                Err(error) => {
                    return Err(error);
                },
            };
            match op {
                // T-NOT
                Unop::Not => {
                    if same_type(&value_ty, &Type::Bool) {
                        Ok(Type::Bool)
                    } else {
                        Err(TypeError::UnexpectedUnaryOperand(*span, *op, value_ty))
                    }
                },
                // T-NEG
                Unop::Neg => {
                    if is_subtype(&Type::SingletonUInt(0), &value_ty) {
                        Ok(value_ty)
                    } else {
                        Err(TypeError::UnexpectedUnaryOperand(*span, *op, value_ty))
                    }
                },
            }
        },
        Expr::Binop(span, op, lhs, rhs) => {
            let lhs_ty = match type_of(env, &**lhs) {
                Ok(lhs_ty) => lhs_ty,
                Err(error) => {
                    return Err(error);
                },
            };
            let rhs_ty = match type_of(env, &**rhs) {
                Ok(rhs_ty) => rhs_ty,
                Err(error) => {
                    return Err(error);
                },
            };
            binop_type_of(*span, *op, lhs_ty, rhs_ty)
        },
    }
}

/// The type of a binary operator applied to operands of the given types.
fn binop_type_of(span: Span, op: Binop, lhs_ty: Type, rhs_ty: Type) -> (result: Result<
    Type,
    TypeError,
>)
    requires
        binop_type(span, op, lhs_ty, rhs_ty) is Some,
    ensures
        Some(result) == binop_type(span, op, lhs_ty, rhs_ty),
{
    match op {
        // T-REL
        Binop::Or | Binop::And => {
            if !same_type(&lhs_ty, &Type::Bool) {
                Err(TypeError::UnexpectedBinaryLhs(span, lhs_ty))
            } else if !same_type(&rhs_ty, &Type::Bool) {
                Err(TypeError::UnexpectedBinaryRhs(span, rhs_ty))
            } else {
                Ok(Type::Bool)
            }
        },
        // T-CMP-...
        Binop::Eq | Binop::Ne | Binop::Le | Binop::Lt | Binop::Gt | Binop::Ge => Ok(Type::Bool),
        // T-ARITH-...
        Binop::Add | Binop::Sub | Binop::Mul | Binop::Div => {
            let unknown_int = Type::SingletonUInt(0);
            // T-ARITH-LHS
            if is_subtype(&lhs_ty, &rhs_ty) && is_subtype(&unknown_int, &rhs_ty) {
                Ok(rhs_ty)
            } else {
                // T-ARITH-RHS
                Ok(lhs_ty)
            }
        },
    }
}

/// The kinding relation: `Γ ⊢ τ : κ`
///
/// # Rules
///
/// ```plain
/// ―――――――――――――――――――― (K-CONST)
///     Γ ⊢ c : Type
///
///         α ∈ Γ
/// ―――――――――――――――――――― (K-VAR)
///     Γ ⊢ α : Type
///
///     Γ ⊢ τ₁ : Type        Γ ⊢ τ₂ : Type
/// ―――――――――――――――――――――――――――――――――――――――――― (K-SUM)
///              Γ ⊢ τ₁ + τ₂ : Type
///
///     Γ ⊢ τ₁ : Type        Γ, x:τ₁ ⊢ τ₂ : Type
/// ―――――――――――――――――――――――――――――――――――――――――――――――――― (K-DEPENDENT-PAIR)
///              Γ ⊢ Σ x:τ₁ .τ₂ : Type
///
///     Γ ⊢ τ : Type        Γ ⊢ e : UInt(ℕ, E)
/// ――――――――――――――――――――――――――――――――――――――――――――――― (K-ARRAY-UINT)
///               Γ ⊢ [τ; e] : Type
///
///     Γ ⊢ τ : Type       Γ ⊢ e : SingletonUInt(ℕ)
/// ―――――――――――――――――――――――――――――――――――――――――――――――――― (K-ARRAY-SINGLETON-UINT)
///               Γ ⊢ [τ; e] : Type
///
///     Γ ⊢ τ : Type      Γ ⊢ b : Bool
/// ―――――――――――――――――――――――――――――――――――――――――― (K-CON)
///           Γ ⊢ { x:τ | b } : Type
/// ```
pub open spec fn spec_kind_of(env: &Env, ty: &Type) -> Checked<Kind, KindError>
    decreases ty,
{
    match ty {
        Type::Bool => Some(Ok(Kind::Type)),
        Type::SingletonUInt(_) => Some(Ok(Kind::Type)),
        Type::UInt(_, _) => Some(Ok(Kind::Type)),
        Type::SInt(_, _) => Some(Ok(Kind::Type)),
        Type::Float(_, _) => Some(Ok(Kind::Type)),
        Type::Var(span, name) => match env.spec_lookup_ty(*name) {
            Some(_) => Some(Ok(Kind::Type)),
            None => Some(Err(KindError::UnboundType(*span, *name))),
        },
        Type::Union(_, tys) => union_kind(env, tys),
        Type::Struct(_, fields) => struct_kind(env, fields),
        Type::Array(span, elem_ty, size) => match spec_kind_of(env, elem_ty) {
            Some(Ok(_)) => match spec_type_of(env, size) {
                Some(Ok(Type::SingletonUInt(_))) => Some(Ok(Kind::Type)),
                Some(Ok(Type::UInt(_, _))) => Some(Ok(Kind::Type)),
                Some(Ok(size_ty)) => Some(Err(KindError::ArraySizeExpectedUInt(*span, size_ty))),
                Some(Err(error)) => Some(Err(KindError::Type(error))),
                None => None,
            },
            other => other,
        },
        Type::Where(span, inner, _, pred) => match spec_kind_of(env, inner) {
            Some(Ok(_)) => match spec_type_of(env, pred) {
                Some(Ok(Type::Bool)) => Some(Ok(Kind::Type)),
                Some(Ok(pred_ty)) => Some(
                    Err(KindError::WherePredicateExpectedBool(*span, pred_ty)),
                ),
                Some(Err(error)) => Some(Err(KindError::Type(error))),
                None => None,
            },
            other => other,
        },
    }
}

/// Whether each member of a union is a type.
pub open spec fn union_kind(env: &Env, tys: &Types) -> Checked<Kind, KindError>
    decreases tys,
{
    match tys {
        Types::Nil => Some(Ok(Kind::Type)),
        Types::Cons(ty, rest) => match spec_kind_of(env, ty) {
            Some(Ok(_)) => union_kind(env, rest),
            other => other,
        },
    }
}

/// Whether each field of a struct is a type, in the scope of the fields
/// before it.
pub open spec fn struct_kind(env: &Env, fields: &Fields) -> Checked<Kind, KindError>
    decreases fields,
{
    match fields {
        Fields::Nil => Some(Ok(Kind::Type)),
        Fields::Cons(name, ty, rest) => match spec_kind_of(env, ty) {
            Some(Ok(_)) => struct_kind(&env.with_binding(*name, **ty), rest),
            other => other,
        },
    }
}

/// The kind of a type in an environment.
pub fn kind_of(env: &Env, ty: &Type) -> (result: Result<Kind, KindError>)
    requires
        spec_kind_of(env, ty) is Some,
    ensures
        Some(result) == spec_kind_of(env, ty),
    decreases ty,
{
    match ty {
        // K-CONST
        Type::Bool => Ok(Kind::Type),
        Type::SingletonUInt(_) => Ok(Kind::Type),
        Type::UInt(_, _) => Ok(Kind::Type),
        Type::SInt(_, _) => Ok(Kind::Type),
        Type::Float(_, _) => Ok(Kind::Type),
        // K-VAR
        Type::Var(span, name) => {
            // α ∈ Γ
            match env.lookup_ty(*name) {
                Some(_) => Ok(Kind::Type),
                None => Err(KindError::UnboundType(*span, *name)),
            }
        },
        // K-SUM
        Type::Union(_, tys) => union_kind_of(env, tys),
        // K-DEPENDENT-PAIR
        Type::Struct(_, fields) => struct_kind_of(env.extend(), fields),
        // K-ARRAY-...
        Type::Array(span, elem_ty, size) => {
            match kind_of(env, &**elem_ty) {
                Ok(_) => {},
                Err(error) => {
                    return Err(error);
                },
            }
            match type_of(env, &**size) {
                // K-ARRAY-SINGLETON-UINT
                Ok(Type::SingletonUInt(_)) => Ok(Kind::Type),
                // K-ARRAY-UINT
                Ok(Type::UInt(_, _)) => Ok(Kind::Type),
                Ok(size_ty) => Err(KindError::ArraySizeExpectedUInt(*span, size_ty)),
                Err(error) => Err(KindError::from(error)),
            }
        },
        // K-CON
        Type::Where(span, inner, _, pred) => {
            match kind_of(env, &**inner) {
                Ok(_) => {},
                Err(error) => {
                    return Err(error);
                },
            }
            match type_of(env, &**pred) {
                Ok(Type::Bool) => Ok(Kind::Type),
                Ok(pred_ty) => Err(KindError::WherePredicateExpectedBool(*span, pred_ty)),
                Err(error) => Err(KindError::from(error)),
            }
        },
    }
}

/// Checks the members of a union.
fn union_kind_of(env: &Env, tys: &Types) -> (result: Result<Kind, KindError>)
    requires
        union_kind(env, tys) is Some,
    ensures
        Some(result) == union_kind(env, tys),
    decreases tys,
{
    match tys {
        Types::Nil => Ok(Kind::Type),
        Types::Cons(ty, rest) => match kind_of(env, &**ty) {
            // Γ ⊢ τ₁ : Type
            Ok(_) => union_kind_of(env, &**rest),
            Err(error) => Err(error),
        },
    }
}

/// Checks the fields of a struct, each in the scope of those before it.
fn struct_kind_of(inner_env: Env, fields: &Fields) -> (result: Result<Kind, KindError>)
    requires
        struct_kind(&inner_env, fields) is Some,
    ensures
        Some(result) == struct_kind(&inner_env, fields),
    decreases fields,
{
    match fields {
        Fields::Nil => Ok(Kind::Type),
        Fields::Cons(name, ty, rest) => {
            // Γ ⊢ τ₁ : Type
            match kind_of(&inner_env, &**ty) {
                Ok(_) => {},
                Err(error) => {
                    return Err(error);
                },
            }
            // Γ, x:τ₁ ⊢ τ₂ : Type
            let mut inner_env = inner_env;
            inner_env.add_binding(*name, (**ty).clone());
            struct_kind_of(inner_env, &**rest)
        },
    }
}

/// Whether the definitions from position `from` on are types, each in the
/// scope of those before it.
pub open spec fn spec_check_defs(env: &Env, defs: Seq<Definition>, from: nat) -> Checked<
    Env,
    KindError,
>
    decreases defs.len() - from,
{
    if from >= defs.len() {
        Some(Ok(*env))
    } else {
        match spec_kind_of(env, &defs[from as int].ty) {
            Some(Ok(_)) => spec_check_defs(
                &env.with_ty(defs[from as int].name, defs[from as int].ty),
                defs,
                from + 1,
            ),
            Some(Err(error)) => Some(Err(error)),
            None => None,
        }
    }
}

impl Env {
    /// Checks a series of definitions, and adds each to the environment
    /// for those after it. The definitions before one that is not well
    /// formed stay in the environment.
    pub fn check_defs(&mut self, defs: Vec<Definition>) -> (result: Result<(), KindError>)
        requires
            spec_check_defs(old(self), defs@, 0) is Some,
        ensures
            match spec_check_defs(old(self), defs@, 0) {
                Some(Ok(env)) => result is Ok && *final(self) == env,
                Some(Err(error)) => result == Err::<(), _>(error),
                None => false,
            },
    {
        let mut i: usize = 0;
        while i < defs.len()
            invariant
                i <= defs.len(),
                spec_check_defs(self, defs@, i as nat) is Some,
                spec_check_defs(old(self), defs@, 0) == spec_check_defs(self, defs@, i as nat),
            decreases defs.len() - i,
        {
            match kind_of(self, &defs[i].ty) {
                Ok(_) => {},
                Err(error) => {
                    return Err(error);
                },
            }
            self.add_ty(defs[i].name, defs[i].ty.clone());
            i = i + 1;
        }
        Ok(())
    }
}

} // verus!
