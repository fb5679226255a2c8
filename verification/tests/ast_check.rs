//! Checks of the type checker of the early form of the language.

use fathom::ast::check::{is_subtype, kind_of, type_of, KindError, TypeError};
use fathom::ast::env::Env;
use fathom::ast::{
    same_type, Binop, BytePos as B, Const, Definition, Endianness, Expr, Fields, Kind, Span, Type,
    Types, Unop,
};
use fathom::symbol::StringId;

const LEN: StringId = StringId(1);
const U8: StringId = StringId(2);
const U16: StringId = StringId(3);
const I32: StringId = StringId(4);
const I8: StringId = StringId(5);
const FOO: StringId = StringId(6);
const X: StringId = StringId(7);
const Y: StringId = StringId(8);
const DATA: StringId = StringId(9);

/// The environment with the types that every program can refer to.
fn default_env() -> Env {
    let mut env = Env::new();
    env.add_ty(U8, Type::UInt(8, Endianness::Target));
    env.add_ty(U16, Type::UInt(16, Endianness::Target));
    env.add_ty(I8, Type::SInt(8, Endianness::Target));
    env.add_ty(I32, Type::SInt(32, Endianness::Target));
    env
}

fn span(lo: u32, hi: u32) -> Span {
    Span::new(B(lo), B(hi))
}

fn expr_var(lo: u32, hi: u32, name: StringId) -> Expr {
    Expr::Var(span(lo, hi), name)
}

fn one(lo: u32) -> Expr {
    Expr::Const(span(lo, lo + 1), Const::UInt(1))
}

fn binop(op: Binop, lhs: Expr, rhs: Expr, hi: u32) -> Expr {
    Expr::Binop(span(0, hi), op, Box::new(lhs), Box::new(rhs))
}

fn ty_var(lo: u32, hi: u32, name: StringId) -> Type {
    Type::Var(span(lo, hi), name)
}

/// The type that the name `u8` stands for.
fn u8_ty() -> Type {
    Type::UInt(8, Endianness::Target)
}

fn types(tys: Vec<Type>) -> Types {
    let mut list = Types::Nil;
    for ty in tys.into_iter().rev() {
        list = Types::Cons(Box::new(ty), Box::new(list));
    }
    list
}

fn fields(entries: Vec<(StringId, Type)>) -> Fields {
    let mut list = Fields::Nil;
    for (name, ty) in entries.into_iter().rev() {
        list = Fields::Cons(name, Box::new(ty), Box::new(list));
    }
    list
}

fn is_type(result: Result<Type, TypeError>, expected: &Type) -> bool {
    matches!(&result, Ok(found) if same_type(found, expected))
}

// Add expressions

#[test]
fn uint_with_uint() {
    let mut env = default_env();
    let len_ty = Type::UInt(32, Endianness::Target);
    env.add_binding(LEN, len_ty.clone());

    // len + len
    let expr = binop(Binop::Add, expr_var(0, 3, LEN), expr_var(6, 9, LEN), 9);
    assert!(is_type(type_of(&env, &expr), &len_ty));
}

#[test]
fn unknown_with_uint() {
    let mut env = default_env();
    let len_ty = Type::UInt(32, Endianness::Target);
    env.add_binding(LEN, len_ty.clone());

    // 1 + len
    let expr = binop(Binop::Add, one(0), expr_var(4, 7, LEN), 7);
    assert!(is_type(type_of(&env, &expr), &len_ty));
}

#[test]
fn uint_with_unknown() {
    let mut env = default_env();
    let len_ty = Type::UInt(32, Endianness::Target);
    env.add_binding(LEN, len_ty.clone());

    // len + 1
    let expr = binop(Binop::Add, expr_var(0, 3, LEN), one(6), 7);
    assert!(is_type(type_of(&env, &expr), &len_ty));
}

#[test]
fn unknown_with_unknown() {
    let env = default_env();
    // 1 + 1
    let expr = binop(Binop::Add, one(0), one(4), 5);

    assert!(is_type(type_of(&env, &expr), &Type::SingletonUInt(1)));
}

// Multiply expressions

#[test]
fn check_uint_with_uint() {
    let mut env = default_env();
    let len_ty = Type::UInt(32, Endianness::Target);
    env.add_binding(LEN, len_ty.clone());

    // len * len
    let expr = binop(Binop::Mul, expr_var(0, 3, LEN), expr_var(6, 9, LEN), 9);
    assert!(is_type(type_of(&env, &expr), &len_ty));
}

#[test]
fn check_unknown_with_uint() {
    let mut env = default_env();
    let len_ty = Type::UInt(32, Endianness::Target);
    env.add_binding(LEN, len_ty.clone());

    // 1 * len
    let expr = binop(Binop::Mul, one(0), expr_var(4, 7, LEN), 7);
    assert!(is_type(type_of(&env, &expr), &len_ty));
}

#[test]
fn check_uint_with_unknown() {
    let mut env = default_env();
    let len_ty = Type::UInt(32, Endianness::Target);
    env.add_binding(LEN, len_ty.clone());

    // len * 1
    let expr = binop(Binop::Mul, expr_var(0, 3, LEN), one(6), 7);
    assert!(is_type(type_of(&env, &expr), &len_ty));
}

#[test]
fn check_unknown_with_unknown() {
    let env = default_env();
    // 1 * 1
    let expr = binop(Binop::Mul, one(0), one(4), 5);

    assert!(is_type(type_of(&env, &expr), &Type::SingletonUInt(1)));
}

// Kinds

#[test]
fn ty_const() {
    let env = default_env();
    let ty = Type::SInt(16, Endianness::Target);

    assert!(matches!(kind_of(&env, &ty), Ok(Kind::Type)));
}

#[test]
fn var() {
    let env = default_env();
    // u8
    let ty = ty_var(0, 2, U8);

    assert!(matches!(kind_of(&env, &ty), Ok(Kind::Type)));
}

#[test]
fn var_missing() {
    let env = default_env();
    // Foo
    let ty = ty_var(0, 3, FOO);

    assert!(matches!(
        kind_of(&env, &ty),
        Err(KindError::UnboundType(found, FOO)) if found == Span::new(B(0), B(3))
    ));
}

#[test]
fn union() {
    let env = default_env();
    // union { u8, u16, i32 }
    let ty = Type::Union(
        span(0, 22),
        types(vec![u8_ty(), Type::UInt(16, Endianness::Target), Type::SInt(32, Endianness::Target)]),
    );

    assert!(matches!(kind_of(&env, &ty), Ok(Kind::Type)));
}

#[test]
fn union_element_missing() {
    let env = default_env();
    // union { u8, Foo, i32 }
    let ty = Type::Union(
        span(0, 22),
        types(vec![u8_ty(), ty_var(12, 15, FOO), Type::SInt(32, Endianness::Target)]),
    );

    assert!(matches!(
        kind_of(&env, &ty),
        Err(KindError::UnboundType(found, FOO)) if found == Span::new(B(12), B(15))
    ));
}

#[test]
fn pair() {
    let env = default_env();
    // struct { x: u8, y: u8 }
    let ty = Type::Struct(
        span(0, 23),
        fields(vec![(X, u8_ty()), (Y, u8_ty())]),
    );

    assert!(matches!(kind_of(&env, &ty), Ok(Kind::Type)));
}

#[test]
fn dependent_pair() {
    let env = default_env();
    // struct { len: u8, data: [u8; len] }
    let data = Type::Array(span(24, 33), Box::new(u8_ty()), Box::new(expr_var(29, 32, LEN)));
    let ty = Type::Struct(span(0, 35), fields(vec![(LEN, u8_ty()), (DATA, data)]));

    assert!(matches!(kind_of(&env, &ty), Ok(Kind::Type)));
}

#[test]
fn array() {
    let env = default_env();
    // [u8; 16]
    let size = Expr::Const(span(5, 7), Const::UInt(16));
    let ty = Type::Array(span(0, 8), Box::new(u8_ty()), Box::new(size));

    assert!(matches!(kind_of(&env, &ty), Ok(Kind::Type)));
}

#[test]
fn array_len() {
    let mut env = default_env();
    let len_ty = Type::UInt(32, Endianness::Target);
    env.add_binding(LEN, len_ty);
    // [u8; len]
    let ty = Type::Array(span(0, 9), Box::new(u8_ty()), Box::new(expr_var(5, 8, LEN)));

    assert!(matches!(kind_of(&env, &ty), Ok(Kind::Type)));
}

#[test]
fn array_singned_int_size() {
    let mut env = default_env();
    // i8
    let len_ty = Type::SInt(8, Endianness::Target);
    env.add_binding(LEN, len_ty.clone());
    // [u8; len]
    let ty = Type::Array(span(0, 9), Box::new(u8_ty()), Box::new(expr_var(5, 8, LEN)));

    assert!(matches!(
        kind_of(&env, &ty),
        Err(KindError::ArraySizeExpectedUInt(found, found_ty))
            if found == Span::new(B(0), B(9)) && same_type(&found_ty, &len_ty)
    ));
}

#[test]
fn array_struct_size() {
    let mut env = default_env();
    // struct {}
    let len_ty = Type::Struct(span(0, 9), Fields::Nil);
    env.add_binding(LEN, len_ty.clone());
    // [u8; len]
    let ty = Type::Array(span(0, 9), Box::new(u8_ty()), Box::new(expr_var(5, 8, LEN)));

    assert!(matches!(
        kind_of(&env, &ty),
        Err(KindError::ArraySizeExpectedUInt(found, found_ty))
            if found == Span::new(B(0), B(9)) && same_type(&found_ty, &len_ty)
    ));
}

#[test]
fn subtyping_of_integers() {
    let uint = Type::UInt(32, Endianness::Target);
    let sint = Type::SInt(32, Endianness::Little);
    assert!(is_subtype(&uint, &uint));
    assert!(is_subtype(&Type::SingletonUInt(3), &Type::SingletonUInt(3)));
    assert!(is_subtype(&Type::SingletonUInt(3), &Type::SingletonUInt(4)));
    assert!(!is_subtype(&Type::SingletonUInt(4), &Type::SingletonUInt(3)));
    assert!(is_subtype(&Type::SingletonUInt(4), &uint));
    assert!(is_subtype(&Type::SingletonUInt(4), &sint));
    assert!(!is_subtype(&uint, &Type::SingletonUInt(4)));
    assert!(!is_subtype(&uint, &sint));
    assert!(!is_subtype(&Type::SingletonUInt(4), &Type::Bool));
    assert!(!is_subtype(&Type::SingletonUInt(4), &Type::Float(32, Endianness::Big)));
}

#[test]
fn types_of_operators() {
    let mut env = default_env();
    env.add_binding(LEN, Type::UInt(32, Endianness::Target));
    env.add_binding(X, Type::Bool);
    let not = |operand: Expr| Expr::Unop(span(0, 9), Unop::Not, Box::new(operand));
    let neg = |operand: Expr| Expr::Unop(span(0, 9), Unop::Neg, Box::new(operand));

    assert!(is_type(type_of(&env, &not(expr_var(1, 2, X))), &Type::Bool));
    assert!(matches!(
        type_of(&env, &not(expr_var(1, 4, LEN))),
        Err(TypeError::UnexpectedUnaryOperand(_, Unop::Not, Type::UInt(32, _)))
    ));
    assert!(is_type(type_of(&env, &neg(expr_var(1, 4, LEN))), &Type::UInt(32, Endianness::Target)));
    assert!(is_type(type_of(&env, &neg(one(1))), &Type::SingletonUInt(1)));
    assert!(matches!(
        type_of(&env, &neg(expr_var(1, 2, X))),
        Err(TypeError::UnexpectedUnaryOperand(_, Unop::Neg, Type::Bool))
    ));
    assert!(matches!(
        type_of(&env, &expr_var(0, 1, Y)),
        Err(TypeError::UnboundVariable(_, Y))
    ));
    assert!(is_type(type_of(&env, &binop(Binop::And, expr_var(0, 1, X), expr_var(5, 6, X), 6)), &Type::Bool));
    assert!(matches!(
        type_of(&env, &binop(Binop::Or, one(0), expr_var(5, 6, X), 6)),
        Err(TypeError::UnexpectedBinaryLhs(_, Type::SingletonUInt(1)))
    ));
    assert!(matches!(
        type_of(&env, &binop(Binop::Or, expr_var(0, 1, X), one(5), 6)),
        Err(TypeError::UnexpectedBinaryRhs(_, Type::SingletonUInt(1)))
    ));
    assert!(is_type(type_of(&env, &binop(Binop::Lt, one(0), expr_var(4, 7, LEN), 7)), &Type::Bool));
    assert!(is_type(type_of(&env, &binop(Binop::Eq, expr_var(0, 3, LEN), one(7), 8)), &Type::Bool));
    // The smaller of two constants is a subtype of the larger.
    let two = Expr::Const(span(4, 5), Const::UInt(2));
    assert!(is_type(type_of(&env, &binop(Binop::Sub, one(0), two, 5)), &Type::SingletonUInt(2)));
}

#[test]
fn conditions_and_definitions() {
    let mut env = default_env();
    env.add_binding(X, Type::Bool);
    // { x: u8 | x }
    let constrained = |pred: Expr| {
        Type::Where(span(0, 9), Box::new(u8_ty()), X, Box::new(pred))
    };
    assert!(matches!(kind_of(&env, &constrained(expr_var(5, 6, X))), Ok(Kind::Type)));
    assert!(matches!(
        kind_of(&env, &constrained(one(5))),
        Err(KindError::WherePredicateExpectedBool(_, Type::SingletonUInt(1)))
    ));
    assert!(matches!(
        kind_of(&env, &constrained(expr_var(5, 6, Y))),
        Err(KindError::Type(TypeError::UnboundVariable(_, Y)))
    ));

    // A name that the environment defines is a type.
    assert!(matches!(kind_of(&env, &ty_var(0, 2, U8)), Ok(Kind::Type)));

    // A definition is in scope of the definitions after it.
    let mut env = default_env();
    let defs = vec![
        Definition { name: FOO, ty: ty_var(0, 2, U8) },
        Definition { name: DATA, ty: ty_var(0, 3, FOO) },
    ];
    assert!(env.check_defs(defs).is_ok());
    assert!(env.lookup_ty(DATA).is_some());
    let defs = vec![
        Definition { name: X, ty: ty_var(0, 2, U8) },
        Definition { name: Y, ty: ty_var(0, 3, LEN) },
    ];
    assert!(matches!(env.check_defs(defs), Err(KindError::UnboundType(_, LEN))));
    assert!(env.lookup_ty(X).is_some());
    assert!(env.lookup_ty(Y).is_none());
    let inner = env.extend();
    assert!(inner.lookup_ty(X).is_some());
    assert!(inner.lookup_binding(X).is_none());
}
