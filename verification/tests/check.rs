//! Checks of the type and kind checker of the data description language.

use fathom::check::{check_defs, kind_of, simplify_ty, ty_of, KindError, TypeError};
use fathom::symbol::StringId;
use fathom::syntax::binary;
use fathom::syntax::host;
use fathom::syntax::{Binding, Ctx, Definition, Var};

const LIMIT: usize = 100;

const X: StringId = StringId(1);
const Y: StringId = StringId(2);
const LEN: StringId = StringId(3);
const DATA: StringId = StringId(4);
const T: StringId = StringId(5);

fn int_lit(value: i64) -> host::Expr {
    host::Expr::Const(host::Const::Int(value))
}

fn boolean(value: bool) -> host::Expr {
    host::Expr::Const(host::Const::Bool(value))
}

fn bound(name: StringId, index: u32) -> host::Expr {
    host::Expr::Var(Var::Bound(name, index))
}

fn binop(op: host::Binop, lhs: host::Expr, rhs: host::Expr) -> host::Expr {
    host::Expr::Binop(op, Box::new(lhs), Box::new(rhs))
}

fn bit() -> binary::Type {
    binary::Type::Const(binary::TypeConst::Bit)
}

fn array(elem: binary::Type, size: host::Expr) -> binary::Type {
    binary::Type::Array(Box::new(elem), Box::new(size))
}

fn fields(entries: Vec<(StringId, binary::Type)>) -> binary::Fields {
    let mut list = binary::Fields::Nil;
    for (name, ty) in entries.into_iter().rev() {
        list = binary::Fields::Cons(name, Box::new(ty), Box::new(list));
    }
    list
}

#[test]
fn types_of_constants_and_operators() {
    let ctx = Ctx::new();
    assert!(ty_of(&ctx, &int_lit(1)).unwrap() == host::Type::int_ty());
    assert!(ty_of(&ctx, &boolean(true)).unwrap() == host::Type::bool_ty());
    assert!(ty_of(&ctx, &host::Expr::Const(host::Const::Bit(true))).unwrap() == host::Type::bit_ty());
    let neg = host::Expr::Unop(host::Unop::Neg, Box::new(int_lit(1)));
    assert!(ty_of(&ctx, &neg).unwrap() == host::Type::int_ty());
    let not = host::Expr::Unop(host::Unop::Not, Box::new(int_lit(1)));
    assert!(matches!(
        ty_of(&ctx, &not),
        Err(TypeError::Mismatch { found, expected, .. })
            if found == host::Type::int_ty() && expected == host::Type::bool_ty()
    ));
    assert!(ty_of(&ctx, &binop(host::Binop::Add, int_lit(1), int_lit(2))).unwrap() == host::Type::int_ty());
    assert!(ty_of(&ctx, &binop(host::Binop::Lt, int_lit(1), int_lit(2))).unwrap() == host::Type::bool_ty());
    assert!(
        ty_of(&ctx, &binop(host::Binop::Eq, boolean(true), boolean(false))).unwrap()
            == host::Type::bool_ty()
    );
    assert!(
        ty_of(&ctx, &binop(host::Binop::Or, boolean(true), boolean(false))).unwrap()
            == host::Type::bool_ty()
    );
    assert!(matches!(
        ty_of(&ctx, &binop(host::Binop::And, boolean(true), int_lit(1))),
        Err(TypeError::BinopOperands { lhs_ty, rhs_ty, .. })
            if lhs_ty == host::Type::bool_ty() && rhs_ty == host::Type::int_ty()
    ));
    assert!(matches!(
        ty_of(&ctx, &binop(host::Binop::Eq, boolean(true), int_lit(1))),
        Err(TypeError::BinopOperands { .. })
    ));
    assert!(matches!(
        ty_of(&ctx, &binop(host::Binop::Mul, boolean(true), boolean(true))),
        Err(TypeError::BinopOperands { .. })
    ));
    let prim = host::Expr::Prim(X, Box::new(host::Type::bool_ty()));
    assert!(ty_of(&ctx, &prim).unwrap() == host::Type::bool_ty());
}

#[test]
fn types_of_variables_and_functions() {
    let mut ctx = Ctx::new();
    assert!(matches!(
        ty_of(&ctx, &host::Expr::Var(Var::Free(X))),
        Err(TypeError::UnboundVariable { name: X, .. })
    ));
    ctx.extend(X, Binding::Expr(host::Type::int_ty()));
    ctx.extend(T, Binding::Type(binary::Kind::Type));
    assert!(ty_of(&ctx, &bound(X, 1)).unwrap() == host::Type::int_ty());
    assert!(matches!(
        ty_of(&ctx, &bound(T, 0)),
        Err(TypeError::ExprBindingExpected { found: (T, Binding::Type(binary::Kind::Type)), .. })
    ));
    // \y : Bool => x, where x is one binder further out under the function
    let abs = host::Expr::Abs(Y, Box::new(host::Type::bool_ty()), Box::new(bound(X, 2)));
    assert!(
        ty_of(&ctx, &abs).unwrap() == host::Type::arrow(host::Type::bool_ty(), host::Type::int_ty())
    );
    let identity = host::Expr::Abs(Y, Box::new(host::Type::bool_ty()), Box::new(bound(Y, 0)));
    assert!(
        ty_of(&ctx, &identity).unwrap()
            == host::Type::arrow(host::Type::bool_ty(), host::Type::bool_ty())
    );
}

#[test]
fn types_of_projections() {
    let mut ctx = Ctx::new();
    let record = host::Type::Struct(host::Fields::Cons(
        X,
        Box::new(host::Type::int_ty()),
        Box::new(host::Fields::Cons(Y, Box::new(host::Type::bool_ty()), Box::new(host::Fields::Nil))),
    ));
    ctx.extend(DATA, Binding::Expr(record.clone()));
    let proj = |field| host::Expr::Proj(Box::new(bound(DATA, 0)), field);
    assert!(ty_of(&ctx, &proj(X)).unwrap() == host::Type::int_ty());
    assert!(ty_of(&ctx, &proj(Y)).unwrap() == host::Type::bool_ty());
    assert!(matches!(
        ty_of(&ctx, &proj(LEN)),
        Err(TypeError::MissingField { field_name: LEN, struct_ty, .. }) if struct_ty == record
    ));
    assert!(record.lookup_field(Y).is_some());
    assert!(host::Type::int_ty().lookup_field(Y).is_none());
}

#[test]
fn kinds_of_types() {
    let mut ctx = Ctx::new();
    assert!(kind_of(&ctx, &bit(), LIMIT).unwrap() == binary::Kind::Type);
    assert!(kind_of(&ctx, &array(bit(), int_lit(8)), LIMIT).unwrap() == binary::Kind::Type);
    assert!(matches!(
        kind_of(&ctx, &array(bit(), boolean(true)), LIMIT),
        Err(KindError::Type(TypeError::Mismatch { .. }))
    ));
    assert!(matches!(
        kind_of(&ctx, &binary::Type::Var(Var::Free(T)), LIMIT),
        Err(KindError::UnboundVariable { name: T, .. })
    ));
    ctx.extend(X, Binding::Expr(host::Type::int_ty()));
    ctx.extend(T, Binding::Type(binary::Kind::Type));
    assert!(kind_of(&ctx, &binary::Type::Var(Var::Bound(T, 0)), LIMIT).unwrap() == binary::Kind::Type);
    assert!(matches!(
        kind_of(&ctx, &binary::Type::Var(Var::Bound(X, 1)), LIMIT),
        Err(KindError::TypeBindingExpected { found: (X, Binding::Expr(_)), .. })
    ));
    let union = binary::Type::Union(binary::Types::Cons(
        Box::new(bit()),
        Box::new(binary::Types::Cons(Box::new(array(bit(), int_lit(2))), Box::new(binary::Types::Nil))),
    ));
    assert!(kind_of(&ctx, &union, LIMIT).unwrap() == binary::Kind::Type);
    // A condition takes a predicate on the representation of its type.
    let is_set = host::Expr::Abs(
        X,
        Box::new(host::Type::bit_ty()),
        Box::new(boolean(true)),
    );
    let cond = binary::Type::Cond(Box::new(bit()), Box::new(is_set));
    assert!(kind_of(&ctx, &cond, LIMIT).unwrap() == binary::Kind::Type);
    let cond = binary::Type::Cond(Box::new(bit()), Box::new(boolean(true)));
    assert!(matches!(
        kind_of(&ctx, &cond, LIMIT),
        Err(KindError::Type(TypeError::Mismatch { .. }))
    ));
    // An interpretation takes a function from the representation into the host type.
    let to_int = host::Expr::Abs(X, Box::new(host::Type::bit_ty()), Box::new(int_lit(0)));
    let interp = binary::Type::Interp(Box::new(bit()), Box::new(to_int), Box::new(host::Type::int_ty()));
    assert!(kind_of(&ctx, &interp, LIMIT).unwrap() == binary::Kind::Type);
    assert!(interp.repr().unwrap() == host::Type::int_ty());
}

#[test]
fn kinds_of_type_functions() {
    let ctx = Ctx::new();
    // \T : Type => T
    let identity = || binary::Type::Abs(
        T,
        binary::Kind::Type,
        Box::new(binary::Type::Var(Var::Bound(T, 0))),
    );
    assert!(
        kind_of(&ctx, &identity(), LIMIT).unwrap()
            == binary::Kind::arrow(binary::Kind::Type, binary::Kind::Type)
    );
    let applied = binary::Type::App(Box::new(identity()), Box::new(bit()));
    assert!(kind_of(&ctx, &applied, LIMIT).unwrap() == binary::Kind::Type);
    let misapplied = binary::Type::App(Box::new(bit()), Box::new(bit()));
    assert!(matches!(
        kind_of(&ctx, &misapplied, LIMIT),
        Err(KindError::Mismatch { found: binary::Kind::Type, .. })
    ));
    let wrong_arg = binary::Type::App(Box::new(identity()), Box::new(identity()));
    assert!(matches!(
        kind_of(&ctx, &wrong_arg, LIMIT),
        Err(KindError::Mismatch { expected: binary::Kind::Type, .. })
    ));
    assert!(identity().repr().is_err());
    assert!(matches!(
        kind_of(&ctx, &binary::Type::Struct(fields(vec![(X, identity())])), LIMIT),
        Err(KindError::Mismatch { .. })
    ));
}

#[test]
fn fields_of_a_struct_scope_over_later_fields() {
    let ctx = Ctx::new();
    // struct { len : interp bit as Int, data : [bit; len] }
    let to_int = host::Expr::Abs(X, Box::new(host::Type::bit_ty()), Box::new(int_lit(0)));
    let len_ty = binary::Type::Interp(Box::new(bit()), Box::new(to_int), Box::new(host::Type::int_ty()));
    let dependent = binary::Type::Struct(fields(vec![
        (LEN, len_ty),
        (DATA, array(bit(), bound(LEN, 0))),
    ]));
    assert!(kind_of(&ctx, &dependent, LIMIT).unwrap() == binary::Kind::Type);
    // The representation of a bit is no integer.
    let wrong = binary::Type::Struct(fields(vec![(LEN, bit()), (DATA, array(bit(), bound(LEN, 0)))]));
    assert!(matches!(
        kind_of(&ctx, &wrong, LIMIT),
        Err(KindError::Type(TypeError::Mismatch { found, .. })) if found == host::Type::bit_ty()
    ));
}

#[test]
fn simplification_unfolds_definitions() {
    let mut ctx = Ctx::new();
    ctx.extend(T, Binding::TypeDef(bit(), binary::Kind::Type));
    let var = binary::Type::Var(Var::Bound(T, 0));
    assert!(matches!(simplify_ty(&ctx, &var, LIMIT), binary::Type::Const(binary::TypeConst::Bit)));
    assert!(matches!(simplify_ty(&ctx, &var, 0), binary::Type::Var(Var::Bound(T, 0))));
    assert!(matches!(simplify_ty(&ctx, &bit(), LIMIT), binary::Type::Const(binary::TypeConst::Bit)));
    ctx.extend(X, Binding::Type(binary::Kind::Type));
    let param = binary::Type::Var(Var::Bound(X, 0));
    assert!(matches!(simplify_ty(&ctx, &param, LIMIT), binary::Type::Var(Var::Bound(X, 0))));
}

#[test]
fn substitution_in_types() {
    // [T; 1] with T bound by the nearest binder
    let open = array(binary::Type::Var(Var::Bound(T, 0)), int_lit(1));
    let closed = open.instantiate_at(0, &bit());
    assert!(matches!(
        &closed,
        binary::Type::Array(elem, _) if matches!(**elem, binary::Type::Const(binary::TypeConst::Bit))
    ));
    let untouched = open.instantiate_at(1, &bit());
    assert!(matches!(
        &untouched,
        binary::Type::Array(elem, _) if matches!(**elem, binary::Type::Var(Var::Bound(T, 0)))
    ));
    // Under a binder the variable is one level further out.
    let body = binary::Type::Abs(
        X,
        binary::Kind::Type,
        Box::new(binary::Type::Var(Var::Bound(T, 1))),
    );
    assert!(matches!(
        body.instantiate_at(0, &bit()),
        binary::Type::Abs(_, _, inner) if matches!(*inner, binary::Type::Const(binary::TypeConst::Bit))
    ));
    let named = array(binary::Type::Var(Var::Free(T)), int_lit(1));
    assert!(matches!(
        named.abstract_name_at(T, 3),
        binary::Type::Array(elem, _) if matches!(*elem, binary::Type::Var(Var::Bound(T, 3)))
    ));
    assert!(matches!(
        named.abstract_name_at(X, 3),
        binary::Type::Array(elem, _) if matches!(*elem, binary::Type::Var(Var::Free(T)))
    ));
    let mut ty = binary::Type::Var(Var::Bound(T, 0));
    ty.instantiate(&bit());
    assert!(matches!(ty, binary::Type::Const(binary::TypeConst::Bit)));
}

#[test]
fn definitions_refer_to_earlier_definitions() {
    let defs = vec![
        Definition { name: T, ty: bit() },
        Definition { name: DATA, ty: array(binary::Type::Var(Var::Free(T)), int_lit(4)) },
    ];
    assert!(check_defs(&defs, LIMIT).is_ok());
    let defs = vec![
        Definition { name: DATA, ty: array(binary::Type::Var(Var::Free(T)), int_lit(4)) },
        Definition { name: T, ty: bit() },
    ];
    assert!(matches!(
        check_defs(&defs, LIMIT),
        Err(KindError::UnboundVariable { name: T, .. })
    ));
    assert!(check_defs(&Vec::new(), LIMIT).is_ok());
}
