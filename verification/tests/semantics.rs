//! Checks of the eliminations, the primitives, forcing, quotation,
//! conversion and the unfolding of metavariables of the core language.

use std::sync::Arc;

use fathom::arena::Scope;
use fathom::core_lang::conversion::ConversionEnv;
use fathom::core_lang::metas::{insert_meta, solve_meta, SolveError};
use fathom::core_lang::quote::QuoteEnv;
use fathom::core_lang::semantics::{
    ArcValue, Branches, Closure, Elim, ElimEnv, Error, EvalEnv, Head, Stop, Telescope, Value,
};
use fathom::core_lang::{Const, LocalInfo, Prim, Term, UIntStyle};
use fathom::env::{EnvLen, Index, Level, SharedEnv, SliceEnv};
use fathom::source::{ByteRange, Span, Spanned};
use fathom::symbol::StringId;

const FUEL: usize = 1000;

/// Keeps a value for as long as the arena lives.
fn keep<'a, T>(_scope: &'a Scope<'a>, value: T) -> &'a T {
    Box::leak(Box::new(value))
}

/// Keeps a copy of the items for as long as the arena lives.
fn keep_all<'a, T: Copy>(_scope: &'a Scope<'a>, items: &[T]) -> &'a [T] {
    Vec::leak(items.to_vec())
}

fn value<'a>(value: Value<'a>) -> ArcValue<'a> {
    Spanned::empty(Arc::new(value))
}

fn constant<'a>(constant: Const) -> ArcValue<'a> {
    value(Value::ConstLit(constant))
}

fn u8_value<'a>(x: u8) -> ArcValue<'a> {
    constant(Const::U8(x, UIntStyle::Decimal))
}

fn prim_value<'a>(prim: Prim, params: Vec<ArcValue<'a>>) -> ArcValue<'a> {
    value(Value::prim(prim, params))
}

fn local<'a>(level: u16) -> ArcValue<'a> {
    value(Value::local_var(Level(level)))
}

fn apply_prim<'a>(prim: Prim, args: Vec<ArcValue<'a>>) -> Result<ArcValue<'a>, Stop> {
    let items: SliceEnv<ArcValue<'a>> = SliceEnv::new();
    let metas: SliceEnv<Option<ArcValue<'a>>> = SliceEnv::new();
    let env = ElimEnv::new(&items, &metas);
    let mut head = prim_value(prim, Vec::new());
    for arg in args {
        head = env.fun_app(head, arg, FUEL)?;
    }
    Ok(head)
}

fn fold<'a>(prim: Prim, args: Vec<Const>) -> Option<Const> {
    let args = args.into_iter().map(constant).collect();
    match apply_prim(prim, args) {
        Ok(value) => match &*value.inner {
            Value::ConstLit(constant) => Some(*constant),
            Value::Stuck(Head::Prim(stuck), _) => {
                assert_eq!(*stuck, prim);
                None
            }
            _ => panic!("a primitive gave neither a constant nor itself"),
        },
        Err(_) => panic!("a primitive on constants stopped"),
    }
}

fn same(found: Option<Const>, expected: Const) -> bool {
    match (found, expected) {
        (Some(Const::U8(a, s)), Const::U8(b, t)) => a == b && s == t,
        (Some(Const::U16(a, s)), Const::U16(b, t)) => a == b && s == t,
        (Some(Const::U32(a, s)), Const::U32(b, t)) => a == b && s == t,
        (Some(Const::U64(a, s)), Const::U64(b, t)) => a == b && s == t,
        (Some(found), expected) => found == expected,
        (None, _) => false,
    }
}

#[test]
fn value_has_unify_and_is_equal_impls() {
    let value = Arc::new(Value::ConstLit(Const::Bool(false)));

    // This test exists in order to cause a test failure when `Value` is
    // changed. If a new variant is added to `Value`, the comparison of values
    // has to handle it.
    match value.as_ref() {
        Value::Stuck(_, _) => {}
        Value::Universe => {}
        Value::FunType(_, _, _) => {}
        Value::FunLit(_, _) => {}
        Value::RecordType(_, _) => {}
        Value::RecordLit(_, _) => {}
        Value::ArrayLit(_) => {}
        Value::FormatRecord(_, _) => {}
        Value::FormatCond(_, _, _) => {}
        Value::FormatOverlap(_, _) => {}
        Value::ConstLit(_) => {}
    }
}

#[test]
fn level_to_index_counts_from_the_end() {
    assert_eq!(EnvLen(5).level_to_index(Level(0)), Some(Index(4)));
    assert_eq!(EnvLen(5).level_to_index(Level(4)), Some(Index(0)));
    assert_eq!(EnvLen(5).level_to_index(Level(5)), None);
    assert_eq!(EnvLen(0).level_to_index(Level(0)), None);
    assert_eq!(EnvLen(5).index_to_level(Index(1)), Some(Level(3)));
    assert_eq!(EnvLen(5).index_to_level(Index(5)), None);
}

#[test]
fn shared_env_is_persistent() {
    let mut env: SharedEnv<u32> = SharedEnv::new();
    env.push(1);
    env.push(2);
    let snapshot = env.clone();
    env.push(3);
    assert_eq!(env.len(), EnvLen(3));
    assert_eq!(snapshot.len(), EnvLen(2));
    assert_eq!(env.get_index(Index(0)), Some(&3));
    assert_eq!(snapshot.get_index(Index(0)), Some(&2));
    assert_eq!(env.get_index(Index(2)), Some(&1));
    assert_eq!(env.get_level(Level(0)), Some(&1));
    assert_eq!(env.get_index(Index(3)), None);
    env.pop();
    env.pop();
    assert_eq!(env.get_index(Index(0)), Some(&1));
    assert_eq!(snapshot.get_index(Index(1)), Some(&1));
    env.truncate(EnvLen(0));
    assert_eq!(env.len(), EnvLen(0));
    env.pop();
    assert_eq!(env.len(), EnvLen(0));
}

#[test]
fn slice_env_is_addressed_by_level() {
    let mut env: SliceEnv<u32> = SliceEnv::new();
    env.push(7);
    env.push(8);
    assert_eq!(env.len(), EnvLen(2));
    assert_eq!(env.get_level(Level(1)), Some(&8));
    assert_eq!(env.get_level(Level(2)), None);
    env.set_level(Level(0), 9);
    assert_eq!(env.get_level(Level(0)), Some(&9));
    assert_eq!(env.get_level(Level(1)), Some(&8));
}

#[test]
fn spans_merge_within_a_file() {
    let a = Span::Range(ByteRange::new(1, 4, 9));
    let b = Span::Range(ByteRange::new(1, 2, 6));
    let c = Span::Range(ByteRange::new(2, 2, 6));
    assert_eq!(a.merge(&b), Span::Range(ByteRange::new(1, 2, 9)));
    assert_eq!(a.merge(&c), Span::Empty);
    assert_eq!(a.merge(&Span::Empty), Span::Empty);
    assert_eq!(Span::Empty.merge(&a), Span::Empty);
}

#[test]
fn styles_merge_to_decimal_when_they_differ() {
    assert_eq!(UIntStyle::merge(UIntStyle::Hexadecimal, UIntStyle::Hexadecimal), UIntStyle::Hexadecimal);
    assert_eq!(UIntStyle::merge(UIntStyle::Binary, UIntStyle::Binary), UIntStyle::Binary);
    assert_eq!(UIntStyle::merge(UIntStyle::Ascii, UIntStyle::Ascii), UIntStyle::Ascii);
    assert_eq!(UIntStyle::merge(UIntStyle::Decimal, UIntStyle::Decimal), UIntStyle::Decimal);
    assert_eq!(UIntStyle::merge(UIntStyle::Hexadecimal, UIntStyle::Binary), UIntStyle::Decimal);
    assert_eq!(UIntStyle::merge(UIntStyle::Ascii, UIntStyle::Decimal), UIntStyle::Decimal);
}

#[test]
fn constants_are_equal_whatever_their_style() {
    assert!(Const::U8(65, UIntStyle::Ascii) == Const::U8(65, UIntStyle::Hexadecimal));
    assert!(Const::U8(65, UIntStyle::Ascii) != Const::U8(66, UIntStyle::Ascii));
    assert!(Const::U8(1, UIntStyle::Decimal) != Const::U16(1, UIntStyle::Decimal));
    assert!(Const::S8(-1) == Const::S8(-1));
    assert!(Const::Bool(true) != Const::Bool(false));
    assert!(Const::Pos(3) == Const::Pos(3));
}

#[test]
fn unsigned_arithmetic_is_checked() {
    let d = UIntStyle::Decimal;
    let h = UIntStyle::Hexadecimal;
    assert!(same(fold(Prim::U8Add, vec![Const::U8(200, h), Const::U8(55, h)]), Const::U8(255, h)));
    assert!(same(fold(Prim::U8Add, vec![Const::U8(200, h), Const::U8(55, d)]), Const::U8(255, d)));
    assert_eq!(fold(Prim::U8Add, vec![Const::U8(255, d), Const::U8(1, d)]), None);
    assert!(same(fold(Prim::U8Sub, vec![Const::U8(5, d), Const::U8(5, d)]), Const::U8(0, d)));
    assert_eq!(fold(Prim::U8Sub, vec![Const::U8(5, d), Const::U8(6, d)]), None);
    assert!(same(fold(Prim::U16Mul, vec![Const::U16(255, d), Const::U16(257, d)]), Const::U16(65535, d)));
    assert_eq!(fold(Prim::U16Mul, vec![Const::U16(256, d), Const::U16(256, d)]), None);
    assert!(same(fold(Prim::U32Div, vec![Const::U32(7, d), Const::U32(2, d)]), Const::U32(3, d)));
    assert_eq!(fold(Prim::U32Div, vec![Const::U32(7, d), Const::U32(0, d)]), None);
    assert!(same(
        fold(Prim::U64Add, vec![Const::U64(u64::MAX - 1, d), Const::U64(1, d)]),
        Const::U64(u64::MAX, d)
    ));
    assert_eq!(fold(Prim::U64Add, vec![Const::U64(u64::MAX, d), Const::U64(1, d)]), None);
}

#[test]
fn arithmetic_needs_operands_of_its_own_type() {
    let d = UIntStyle::Decimal;
    assert_eq!(fold(Prim::U8Add, vec![Const::U16(1, d), Const::U16(1, d)]), None);
    assert_eq!(fold(Prim::U16Add, vec![Const::U8(1, d), Const::U8(1, d)]), None);
    assert_eq!(fold(Prim::S8Add, vec![Const::U8(1, d), Const::U8(1, d)]), None);
    assert_eq!(fold(Prim::BoolAnd, vec![Const::U8(1, d), Const::Bool(true)]), None);
    assert_eq!(fold(Prim::U8Add, vec![Const::U8(1, d)]), None);
}

#[test]
fn signed_arithmetic_is_checked() {
    assert!(same(fold(Prim::S8Add, vec![Const::S8(100), Const::S8(27)]), Const::S8(127)));
    assert_eq!(fold(Prim::S8Add, vec![Const::S8(100), Const::S8(28)]), None);
    assert!(same(fold(Prim::S8Sub, vec![Const::S8(-100), Const::S8(28)]), Const::S8(-128)));
    assert_eq!(fold(Prim::S8Sub, vec![Const::S8(-100), Const::S8(29)]), None);
    assert!(same(fold(Prim::S16Mul, vec![Const::S16(-128), Const::S16(256)]), Const::S16(-32768)));
    assert_eq!(fold(Prim::S16Mul, vec![Const::S16(128), Const::S16(256)]), None);
    assert!(same(fold(Prim::S32Div, vec![Const::S32(-7), Const::S32(2)]), Const::S32(-3)));
    assert!(same(fold(Prim::S32Div, vec![Const::S32(7), Const::S32(-2)]), Const::S32(-3)));
    assert!(same(fold(Prim::S32Div, vec![Const::S32(-7), Const::S32(-2)]), Const::S32(3)));
    assert_eq!(fold(Prim::S32Div, vec![Const::S32(7), Const::S32(0)]), None);
    assert_eq!(fold(Prim::S64Div, vec![Const::S64(i64::MIN), Const::S64(-1)]), None);
    assert!(same(fold(Prim::S8Neg, vec![Const::S8(127)]), Const::S8(-127)));
    assert_eq!(fold(Prim::S8Neg, vec![Const::S8(-128)]), None);
    assert!(same(fold(Prim::S16Abs, vec![Const::S16(-5)]), Const::S16(5)));
    assert!(same(fold(Prim::S16Abs, vec![Const::S16(5)]), Const::S16(5)));
    assert_eq!(fold(Prim::S16Abs, vec![Const::S16(i16::MIN)]), None);
    assert!(same(
        fold(Prim::S8UAbs, vec![Const::S8(-128)]),
        Const::U8(128, UIntStyle::Decimal)
    ));
    assert!(same(
        fold(Prim::S64UAbs, vec![Const::S64(i64::MIN)]),
        Const::U64(9223372036854775808, UIntStyle::Decimal)
    ));
    assert!(same(fold(Prim::S32UAbs, vec![Const::S32(17)]), Const::U32(17, UIntStyle::Decimal)));
}

#[test]
fn comparisons_give_booleans() {
    let d = UIntStyle::Decimal;
    assert!(same(fold(Prim::U8Eq, vec![Const::U8(3, d), Const::U8(3, d)]), Const::Bool(true)));
    assert!(same(fold(Prim::U8Neq, vec![Const::U8(3, d), Const::U8(3, d)]), Const::Bool(false)));
    assert!(same(fold(Prim::U16Gt, vec![Const::U16(4, d), Const::U16(3, d)]), Const::Bool(true)));
    assert!(same(fold(Prim::U16Lt, vec![Const::U16(4, d), Const::U16(3, d)]), Const::Bool(false)));
    assert!(same(fold(Prim::U32Gte, vec![Const::U32(3, d), Const::U32(3, d)]), Const::Bool(true)));
    assert!(same(fold(Prim::U64Lte, vec![Const::U64(4, d), Const::U64(3, d)]), Const::Bool(false)));
    assert!(same(fold(Prim::S8Lt, vec![Const::S8(-1), Const::S8(0)]), Const::Bool(true)));
    assert!(same(fold(Prim::S64Gte, vec![Const::S64(-1), Const::S64(0)]), Const::Bool(false)));
    assert!(same(fold(Prim::BoolEq, vec![Const::Bool(true), Const::Bool(true)]), Const::Bool(true)));
    assert!(same(fold(Prim::BoolNeq, vec![Const::Bool(true), Const::Bool(true)]), Const::Bool(false)));
    assert!(same(fold(Prim::BoolXor, vec![Const::Bool(true), Const::Bool(false)]), Const::Bool(true)));
    assert!(same(fold(Prim::BoolAnd, vec![Const::Bool(true), Const::Bool(false)]), Const::Bool(false)));
    assert!(same(fold(Prim::BoolOr, vec![Const::Bool(true), Const::Bool(false)]), Const::Bool(true)));
    assert!(same(fold(Prim::BoolNot, vec![Const::Bool(true)]), Const::Bool(false)));
}

#[test]
fn shifts_need_an_amount_below_the_width() {
    let d = UIntStyle::Decimal;
    let h = UIntStyle::Hexadecimal;
    assert!(same(fold(Prim::U8Shl, vec![Const::U8(0x81, h), Const::U8(1, d)]), Const::U8(0x02, h)));
    assert!(same(fold(Prim::U8Shr, vec![Const::U8(0x81, h), Const::U8(1, d)]), Const::U8(0x40, h)));
    assert!(same(fold(Prim::U8Shl, vec![Const::U8(1, d), Const::U8(7, d)]), Const::U8(128, d)));
    assert_eq!(fold(Prim::U8Shl, vec![Const::U8(1, d), Const::U8(8, d)]), None);
    assert!(same(fold(Prim::U16Shl, vec![Const::U16(1, d), Const::U8(15, d)]), Const::U16(32768, d)));
    assert_eq!(fold(Prim::U16Shr, vec![Const::U16(1, d), Const::U8(16, d)]), None);
    assert_eq!(fold(Prim::U16Shl, vec![Const::U16(1, d), Const::U16(1, d)]), None);
    assert!(same(
        fold(Prim::U64Shr, vec![Const::U64(u64::MAX, d), Const::U8(63, d)]),
        Const::U64(1, d)
    ));
    assert_eq!(fold(Prim::U32Shl, vec![Const::U32(1, d), Const::U8(32, d)]), None);
}

#[test]
fn bitwise_operations_work_on_the_bits() {
    let d = UIntStyle::Decimal;
    let b = UIntStyle::Binary;
    assert!(same(fold(Prim::U8And, vec![Const::U8(0b1100, b), Const::U8(0b1010, b)]), Const::U8(0b1000, b)));
    assert!(same(fold(Prim::U8Or, vec![Const::U8(0b1100, b), Const::U8(0b1010, b)]), Const::U8(0b1110, b)));
    assert!(same(fold(Prim::U8Xor, vec![Const::U8(0b1100, b), Const::U8(0b1010, d)]), Const::U8(0b0110, d)));
    assert!(same(fold(Prim::U8Not, vec![Const::U8(0b1100, b)]), Const::U8(0b1111_0011, b)));
    assert!(same(fold(Prim::U16Not, vec![Const::U16(0, b)]), Const::U16(u16::MAX, d)));
    assert!(same(fold(Prim::U32And, vec![Const::U32(6, d), Const::U32(3, d)]), Const::U32(2, d)));
    assert!(same(fold(Prim::U64Xor, vec![Const::U64(6, d), Const::U64(3, d)]), Const::U64(5, d)));
}

#[test]
fn positions_move_forward() {
    let d = UIntStyle::Decimal;
    assert!(same(fold(Prim::PosAddU8, vec![Const::Pos(10), Const::U8(5, d)]), Const::Pos(15)));
    assert!(same(fold(Prim::PosAddU16, vec![Const::Pos(10), Const::U16(500, d)]), Const::Pos(510)));
    assert!(same(fold(Prim::PosAddU32, vec![Const::Pos(0), Const::U32(7, d)]), Const::Pos(7)));
    assert!(same(fold(Prim::PosAddU64, vec![Const::Pos(1), Const::U64(7, d)]), Const::Pos(8)));
    assert_eq!(fold(Prim::PosAddU8, vec![Const::Pos(usize::MAX), Const::U8(1, d)]), None);
    assert_eq!(fold(Prim::PosAddU8, vec![Const::U8(1, d), Const::U8(1, d)]), None);
    assert_eq!(fold(Prim::PosAddU16, vec![Const::Pos(1), Const::U8(1, d)]), None);
}

#[test]
fn a_stuck_operand_keeps_the_primitive_stuck() {
    let stuck = apply_prim(Prim::U8Add, vec![local(0), u8_value(1)]).unwrap();
    match &*stuck.inner {
        Value::Stuck(Head::Prim(Prim::U8Add), spine) => assert_eq!(spine.len(), 2),
        _ => panic!("the sum of a variable is not stuck"),
    }
}

#[test]
fn array_index_needs_an_index_in_range() {
    let d = UIntStyle::Decimal;
    fn index<'a>(prim: Prim, index: Const) -> ArcValue<'a> {
        let elems = value(Value::ArrayLit(vec![u8_value(10), u8_value(20), u8_value(30)]));
        apply_prim(prim, vec![u8_value(3), prim_value(Prim::U8Type, vec![]), constant(index), elems])
            .unwrap()
    }
    assert!(matches!(&*index(Prim::Array8Index, Const::U8(0, d)).inner, Value::ConstLit(Const::U8(10, _))));
    assert!(matches!(&*index(Prim::Array16Index, Const::U16(2, d)).inner, Value::ConstLit(Const::U8(30, _))));
    assert!(matches!(&*index(Prim::Array32Index, Const::U32(1, d)).inner, Value::ConstLit(Const::U8(20, _))));
    assert!(matches!(&*index(Prim::Array64Index, Const::U64(1, d)).inner, Value::ConstLit(Const::U8(20, _))));
    assert!(matches!(
        &*index(Prim::Array8Index, Const::U8(3, d)).inner,
        Value::Stuck(Head::Prim(Prim::Array8Index), _)
    ));
    assert!(matches!(
        &*index(Prim::Array8Index, Const::S8(0)).inner,
        Value::Stuck(Head::Prim(Prim::Array8Index), _)
    ));
}

fn is_zero<'a>(scope: &'a Scope<'a>) -> ArcValue<'a> {
    // fun x => x == 0
    let eq = Term::FunApp(
        Span::Empty,
        keep(&scope, Term::FunApp(
            Span::Empty,
            keep(&scope, Term::Prim(Span::Empty, Prim::U8Eq)),
            keep(&scope, Term::LocalVar(Span::Empty, Index(0))),
        )),
        keep(&scope, Term::ConstLit(Span::Empty, Const::U8(0, UIntStyle::Decimal))),
    );
    value(Value::FunLit(None, Closure::new(SharedEnv::new(), keep(&scope, eq))))
}

fn find<'a>(scope: &'a Scope<'a>, elems: Vec<ArcValue<'a>>) -> ArcValue<'a> {
    apply_prim(
        Prim::Array8Find,
        vec![
            u8_value(3),
            prim_value(Prim::U8Type, vec![]),
            is_zero(scope),
            value(Value::ArrayLit(elems)),
        ],
    )
    .unwrap()
}

#[test]
fn array_find_gives_the_first_match() {
    let scope = Scope::new();
    let found = find(
        &scope,
        vec![u8_value(4), constant(Const::U8(0, UIntStyle::Hexadecimal)), u8_value(0)],
    );
    match &*found.inner {
        Value::Stuck(Head::Prim(Prim::OptionSome), spine) => match &spine[..] {
            [Elim::FunApp(elem)] => assert!(matches!(
                &*elem.inner,
                Value::ConstLit(Const::U8(0, UIntStyle::Hexadecimal))
            )),
            _ => panic!("some value has one argument"),
        },
        _ => panic!("the zero was not found"),
    }
    let missing = find(&scope, vec![u8_value(4), u8_value(5)]);
    assert!(matches!(
        &*missing.inner,
        Value::Stuck(Head::Prim(Prim::OptionNone), spine) if spine.is_empty()
    ));
    let stuck = find(&scope, vec![u8_value(4), local(0), u8_value(0)]);
    assert!(matches!(&*stuck.inner, Value::Stuck(Head::Prim(Prim::Array8Find), _)));
}

fn fold_option<'a>(scope: &'a Scope<'a>, option: ArcValue<'a>) -> ArcValue<'a> {
    apply_prim(
        Prim::OptionFold,
        vec![
            prim_value(Prim::U8Type, vec![]),
            prim_value(Prim::BoolType, vec![]),
            constant(Const::Bool(false)),
            is_zero(scope),
            option,
        ],
    )
    .unwrap()
}

#[test]
fn option_fold_dispatches_on_the_option() {
    let scope = Scope::new();
    let some = fold_option(&scope, prim_value(Prim::OptionSome, vec![u8_value(0)]));
    assert!(matches!(&*some.inner, Value::ConstLit(Const::Bool(true))));
    let none = fold_option(&scope, prim_value(Prim::OptionNone, vec![]));
    assert!(matches!(&*none.inner, Value::ConstLit(Const::Bool(false))));
    let stuck = fold_option(&scope, local(0));
    assert!(matches!(&*stuck.inner, Value::Stuck(Head::Prim(Prim::OptionFold), _)));
}

fn repr<'a>(format: ArcValue<'a>) -> Result<ArcValue<'a>, Stop> {
    let items: SliceEnv<ArcValue<'a>> = SliceEnv::new();
    let metas: SliceEnv<Option<ArcValue<'a>>> = SliceEnv::new();
    ElimEnv::new(&items, &metas).format_repr(&format, FUEL)
}

fn is_prim(value: &ArcValue, prim: Prim, args: usize) -> bool {
    matches!(&*value.inner, Value::Stuck(Head::Prim(found), spine) if *found == prim && spine.len() == args)
}

#[test]
fn format_repr_of_atomic_formats() {
    let pairs = [
        (Prim::FormatU8, Prim::U8Type),
        (Prim::FormatU16Be, Prim::U16Type),
        (Prim::FormatU16Le, Prim::U16Type),
        (Prim::FormatU32Be, Prim::U32Type),
        (Prim::FormatU32Le, Prim::U32Type),
        (Prim::FormatU64Be, Prim::U64Type),
        (Prim::FormatU64Le, Prim::U64Type),
        (Prim::FormatS8, Prim::S8Type),
        (Prim::FormatS16Be, Prim::S16Type),
        (Prim::FormatS16Le, Prim::S16Type),
        (Prim::FormatS32Be, Prim::S32Type),
        (Prim::FormatS32Le, Prim::S32Type),
        (Prim::FormatS64Be, Prim::S64Type),
        (Prim::FormatS64Le, Prim::S64Type),
        (Prim::FormatF32Be, Prim::F32Type),
        (Prim::FormatF32Le, Prim::F32Type),
        (Prim::FormatF64Be, Prim::F64Type),
        (Prim::FormatF64Le, Prim::F64Type),
        (Prim::FormatStreamPos, Prim::PosType),
        (Prim::FormatFail, Prim::VoidType),
        (Prim::ReportedError, Prim::ReportedError),
    ];
    for (format, expected) in pairs {
        let found = repr(prim_value(format, vec![])).unwrap();
        assert!(is_prim(&found, expected, 0));
    }
}

#[test]
fn format_repr_of_compound_formats() {
    let len = || u8_value(4);
    let u16be = || prim_value(Prim::FormatU16Be, vec![]);

    let array = repr(prim_value(Prim::FormatArray8, vec![len(), u16be()])).unwrap();
    match &*array.inner {
        Value::Stuck(Head::Prim(Prim::Array8Type), spine) => match &spine[..] {
            [Elim::FunApp(len), Elim::FunApp(elem)] => {
                assert!(matches!(&*len.inner, Value::ConstLit(Const::U8(4, _))));
                assert!(is_prim(elem, Prim::U16Type, 0));
            }
            _ => panic!("an array type has two arguments"),
        },
        _ => panic!("the representation is no array type"),
    }
    for (format, expected) in [
        (Prim::FormatArray16, Prim::Array16Type),
        (Prim::FormatArray32, Prim::Array32Type),
        (Prim::FormatArray64, Prim::Array64Type),
    ] {
        assert!(is_prim(&repr(prim_value(format, vec![len(), u16be()])).unwrap(), expected, 2));
    }
    for format in [Prim::FormatLimit8, Prim::FormatLimit16, Prim::FormatLimit32, Prim::FormatLimit64] {
        assert!(is_prim(&repr(prim_value(format, vec![len(), u16be()])).unwrap(), Prim::U16Type, 0));
    }
    let repeat = repr(prim_value(Prim::FormatRepeatUntilEnd, vec![u16be()])).unwrap();
    match &*repeat.inner {
        Value::Stuck(Head::Prim(Prim::ArrayType), spine) => match &spine[..] {
            [Elim::FunApp(elem)] => assert!(is_prim(elem, Prim::U16Type, 0)),
            _ => panic!("an array type has one argument"),
        },
        _ => panic!("the representation is no array type"),
    }
    let link = repr(prim_value(Prim::FormatLink, vec![constant(Const::Pos(0)), u16be()])).unwrap();
    match &*link.inner {
        Value::Stuck(Head::Prim(Prim::RefType), spine) => match &spine[..] {
            [Elim::FunApp(elem)] => assert!(is_prim(elem, Prim::FormatU16Be, 0)),
            _ => panic!("a reference type has one argument"),
        },
        _ => panic!("the representation is no reference type"),
    }
    let deref = repr(prim_value(Prim::FormatDeref, vec![u16be(), local(0)])).unwrap();
    assert!(is_prim(&deref, Prim::U16Type, 0));
    let bool_type = || prim_value(Prim::BoolType, vec![]);
    let succeed = repr(prim_value(Prim::FormatSucceed, vec![bool_type(), local(0)])).unwrap();
    assert!(is_prim(&succeed, Prim::BoolType, 0));
    let unwrap = repr(prim_value(Prim::FormatUnwrap, vec![bool_type(), local(0)])).unwrap();
    assert!(is_prim(&unwrap, Prim::BoolType, 0));
}

#[test]
fn format_repr_stays_stuck_on_what_it_does_not_know() {
    let stuck = repr(local(0)).unwrap();
    match &*stuck.inner {
        Value::Stuck(Head::Prim(Prim::FormatRepr), spine) => match &spine[..] {
            [Elim::FunApp(format)] => {
                assert!(matches!(&*format.inner, Value::Stuck(Head::LocalVar(Level(0)), _)))
            }
            _ => panic!("the representation has one argument"),
        },
        _ => panic!("the representation of a variable is not stuck"),
    }
    assert!(is_prim(&repr(prim_value(Prim::FormatArray8, vec![u8_value(1)])).unwrap(), Prim::FormatRepr, 1));
    assert!(is_prim(&repr(prim_value(Prim::U8Type, vec![])).unwrap(), Prim::FormatRepr, 1));
    assert!(matches!(
        repr(value(Value::Universe)),
        Err(Stop::Error(Error::InvalidFormatRepr))
    ));
}

#[test]
fn format_repr_of_records_keeps_the_fields() {
    let scope = Scope::new();
    let labels: &[StringId] = keep_all(&scope, &[StringId(1)]);
    let formats = keep(&scope, vec![Term::Prim(Span::Empty, Prim::FormatU8)]);
    for overlap in [false, true] {
        let telescope = Telescope::new(SharedEnv::new(), formats.as_slice());
        let format = if overlap {
            value(Value::FormatOverlap(labels, telescope))
        } else {
            value(Value::FormatRecord(labels, telescope))
        };
        let found = repr(format).unwrap();
        match &*found.inner {
            Value::RecordType(found_labels, types) => {
                assert_eq!(*found_labels, labels);
                assert_eq!(types.len(), 1);
                assert!(types.apply_repr);
            }
            _ => panic!("the representation is no record type"),
        }
    }
}

#[test]
fn eliminations_of_the_wrong_shape_are_errors() {
    let items: SliceEnv<ArcValue> = SliceEnv::new();
    let metas: SliceEnv<Option<ArcValue>> = SliceEnv::new();
    let env = ElimEnv::new(&items, &metas);
    assert!(matches!(
        env.fun_app(value(Value::Universe), u8_value(1), FUEL),
        Err(Stop::Error(Error::InvalidFunctionApp))
    ));
    assert!(matches!(
        env.record_proj(value(Value::Universe), StringId(0)),
        Err(Stop::Error(Error::InvalidRecordProj))
    ));
    let record = value(Value::RecordLit(&[StringId(1)], vec![u8_value(1)]));
    assert!(matches!(
        env.record_proj(record, StringId(2)),
        Err(Stop::Error(Error::InvalidRecordProj))
    ));
    let branches = Branches::new(SharedEnv::new(), &[], None);
    assert!(matches!(
        env.const_match(value(Value::Universe), branches.clone(), FUEL),
        Err(Stop::Error(Error::InvalidConstMatch))
    ));
    assert!(matches!(
        env.const_match(u8_value(1), branches, FUEL),
        Err(Stop::Error(Error::MissingConstDefault))
    ));
}

#[test]
fn unbound_variables_are_errors() {
    let items: SliceEnv<ArcValue> = SliceEnv::new();
    let metas: SliceEnv<Option<ArcValue>> = SliceEnv::new();
    let mut locals: SharedEnv<ArcValue> = SharedEnv::new();
    let mut env = EvalEnv::new(ElimEnv::new(&items, &metas), &mut locals);
    assert!(matches!(
        env.eval(&Term::ItemVar(Span::Empty, Level(0)), FUEL),
        Err(Stop::Error(Error::UnboundItemVar))
    ));
    assert!(matches!(
        env.eval(&Term::LocalVar(Span::Empty, Index(0)), FUEL),
        Err(Stop::Error(Error::UnboundLocalVar))
    ));
    assert!(matches!(
        env.eval(&Term::MetaVar(Span::Empty, Level(0)), FUEL),
        Err(Stop::Error(Error::UnboundMetaVar))
    ));
}

#[test]
fn error_descriptions() {
    assert_eq!(Error::UnboundItemVar.description(), "unbound item variable");
    assert_eq!(Error::UnboundLocalVar.description(), "unbound local variable");
    assert_eq!(Error::UnboundMetaVar.description(), "unbound metavariable");
    assert_eq!(Error::InvalidFunctionApp.description(), "invalid function application");
    assert_eq!(Error::InvalidRecordProj.description(), "invalid record projection");
    assert_eq!(Error::InvalidConstMatch.description(), "invalid constant match");
    assert_eq!(Error::InvalidFormatRepr.description(), "invalid format repr");
    assert_eq!(Error::MissingConstDefault.description(), "missing default expression");
}

#[test]
fn record_projection_takes_the_first_field_of_that_label() {
    let items: SliceEnv<ArcValue> = SliceEnv::new();
    let metas: SliceEnv<Option<ArcValue>> = SliceEnv::new();
    let env = ElimEnv::new(&items, &metas);
    let labels: &[StringId] = &[StringId(1), StringId(2), StringId(2)];
    let record = || value(Value::RecordLit(labels, vec![u8_value(10), u8_value(20), u8_value(30)]));
    let first = env.record_proj(record(), StringId(1)).unwrap();
    assert!(matches!(&*first.inner, Value::ConstLit(Const::U8(10, _))));
    let second = env.record_proj(record(), StringId(2)).unwrap();
    assert!(matches!(&*second.inner, Value::ConstLit(Const::U8(20, _))));
    let stuck = env.record_proj(local(3), StringId(2)).unwrap();
    match &*stuck.inner {
        Value::Stuck(Head::LocalVar(Level(3)), spine) => {
            assert!(matches!(&spine[..], [Elim::RecordProj(StringId(2))]))
        }
        _ => panic!("the projection from a variable is not stuck"),
    }
}

#[test]
fn a_shared_stuck_value_is_not_changed_by_an_application() {
    let items: SliceEnv<ArcValue> = SliceEnv::new();
    let metas: SliceEnv<Option<ArcValue>> = SliceEnv::new();
    let env = ElimEnv::new(&items, &metas);
    let shared = local(0);
    let applied = env.fun_app(shared.clone(), u8_value(1), FUEL).unwrap();
    let again = env.fun_app(applied.clone(), u8_value(2), FUEL).unwrap();
    let spine_len = |value: &ArcValue| match &*value.inner {
        Value::Stuck(_, spine) => spine.len(),
        _ => panic!("the value is not stuck"),
    };
    assert_eq!(spine_len(&shared), 0);
    assert_eq!(spine_len(&applied), 1);
    assert_eq!(spine_len(&again), 2);
    let owned = env.fun_app(local(0), u8_value(1), FUEL).unwrap();
    assert_eq!(spine_len(&owned), 1);
}

#[test]
fn const_match_picks_the_first_branch_or_the_default() {
    let scope = Scope::new();
    let items: SliceEnv<ArcValue> = SliceEnv::new();
    let metas: SliceEnv<Option<ArcValue>> = SliceEnv::new();
    let env = ElimEnv::new(&items, &metas);
    let lit = |x: u8| Term::ConstLit(Span::Empty, Const::U8(x, UIntStyle::Decimal));
    let pattern_branches = keep(&scope, vec![
        (Const::U8(1, UIntStyle::Decimal), lit(10)),
        (Const::U8(2, UIntStyle::Decimal), lit(20)),
        (Const::U8(1, UIntStyle::Decimal), lit(30)),
    ]);
    // The default gives back the scrutinee, which is bound for it.
    let default_expr = keep(&scope, Term::LocalVar(Span::Empty, Index(0)));
    let branches =
        || Branches::new(SharedEnv::new(), pattern_branches.as_slice(), Some(default_expr));
    assert_eq!(branches().num_patterns(), 3);
    let first = env.const_match(u8_value(1), branches(), FUEL).unwrap();
    assert!(matches!(&*first.inner, Value::ConstLit(Const::U8(10, _))));
    let styled = env
        .const_match(constant(Const::U8(2, UIntStyle::Hexadecimal)), branches(), FUEL)
        .unwrap();
    assert!(matches!(&*styled.inner, Value::ConstLit(Const::U8(20, _))));
    let default = env.const_match(u8_value(7), branches(), FUEL).unwrap();
    assert!(matches!(&*default.inner, Value::ConstLit(Const::U8(7, _))));
    let stuck = env.const_match(local(0), branches(), FUEL).unwrap();
    match &*stuck.inner {
        Value::Stuck(Head::LocalVar(Level(0)), spine) => {
            assert!(matches!(&spine[..], [Elim::ConstMatch(_)]))
        }
        _ => panic!("the match on a variable is not stuck"),
    }
}

#[test]
fn forcing_follows_solutions() {
    let items: SliceEnv<ArcValue> = SliceEnv::new();
    let mut metas: SliceEnv<Option<ArcValue>> = SliceEnv::new();
    // ?0 := ?1, ?1 := Type, ?2 has no solution
    metas.push(Some(value(Value::meta_var(Level(1)))));
    metas.push(Some(value(Value::Universe)));
    metas.push(None);
    let env = ElimEnv::new(&items, &metas);
    let forced = env.force(&value(Value::meta_var(Level(0))), FUEL).unwrap();
    assert!(matches!(&*forced.inner, Value::Universe));
    let unsolved = env.force(&value(Value::meta_var(Level(2))), FUEL).unwrap();
    assert!(matches!(&*unsolved.inner, Value::Stuck(Head::MetaVar(Level(2)), _)));
    let rigid = env.force(&local(0), FUEL).unwrap();
    assert!(matches!(&*rigid.inner, Value::Stuck(Head::LocalVar(Level(0)), _)));
    assert!(matches!(
        env.force(&value(Value::meta_var(Level(3))), FUEL),
        Err(Stop::Error(Error::UnboundMetaVar))
    ));
    assert!(matches!(env.force(&value(Value::meta_var(Level(0))), 1), Err(Stop::Limit)));
}

#[test]
fn metavariables_are_solved_once() {
    let mut metas: SliceEnv<Option<ArcValue>> = SliceEnv::new();
    assert_eq!(insert_meta(&mut metas), Some(Level(0)));
    assert_eq!(insert_meta(&mut metas), Some(Level(1)));
    assert_eq!(solve_meta(&mut metas, Level(0), value(Value::Universe)), Ok(()));
    assert_eq!(solve_meta(&mut metas, Level(0), u8_value(1)), Err(SolveError::Solved));
    assert_eq!(solve_meta(&mut metas, Level(2), u8_value(1)), Err(SolveError::Unbound));
    assert!(matches!(
        metas.get_level(Level(0)),
        Some(Some(solution)) if matches!(&*solution.inner, Value::Universe)
    ));
    assert!(matches!(metas.get_level(Level(1)), Some(None)));
    assert_eq!(solve_meta(&mut metas, Level(1), u8_value(1)), Ok(()));
    assert!(matches!(
        metas.get_level(Level(0)),
        Some(Some(solution)) if matches!(&*solution.inner, Value::Universe)
    ));
}

fn compare<'a>(len: u16, value0: &ArcValue<'a>, value1: &ArcValue<'a>) -> Result<bool, Stop> {
    let items: SliceEnv<ArcValue<'a>> = SliceEnv::new();
    let metas: SliceEnv<Option<ArcValue<'a>>> = SliceEnv::new();
    let mut env = ConversionEnv::new(ElimEnv::new(&items, &metas), EnvLen(len));
    env.is_equal(value0, value1, FUEL)
}

#[test]
fn reported_errors_are_equal_to_everything() {
    let error = prim_value(Prim::ReportedError, vec![]);
    let applied = prim_value(Prim::ReportedError, vec![u8_value(1)]);
    let others = [value(Value::Universe), u8_value(3), local(0), prim_value(Prim::U8Type, vec![])];
    for other in &others {
        assert_eq!(compare(1, &error, other), Ok(true));
        assert_eq!(compare(1, other, &error), Ok(true));
        assert_eq!(compare(1, &applied, other), Ok(true));
    }
    assert_eq!(compare(1, &others[0], &others[1]), Ok(false));
}

#[test]
fn conversion_compares_shapes() {
    assert_eq!(compare(0, &value(Value::Universe), &value(Value::Universe)), Ok(true));
    assert_eq!(compare(0, &u8_value(1), &constant(Const::U8(1, UIntStyle::Hexadecimal))), Ok(true));
    assert_eq!(compare(0, &u8_value(1), &u8_value(2)), Ok(false));
    assert_eq!(compare(2, &local(0), &local(0)), Ok(true));
    assert_eq!(compare(2, &local(0), &local(1)), Ok(false));
    let array = |elems: Vec<u8>| value(Value::ArrayLit(elems.into_iter().map(u8_value).collect()));
    assert_eq!(compare(0, &array(vec![1, 2]), &array(vec![1, 2])), Ok(true));
    assert_eq!(compare(0, &array(vec![1, 2]), &array(vec![1, 3])), Ok(false));
    assert_eq!(compare(0, &array(vec![1, 2]), &array(vec![1, 2, 3])), Ok(false));
    assert_eq!(compare(0, &array(vec![]), &array(vec![])), Ok(true));
    let labels_ab: &[StringId] = &[StringId(1), StringId(2)];
    let labels_ba: &[StringId] = &[StringId(2), StringId(1)];
    let record = |labels| value(Value::RecordLit(labels, vec![u8_value(1), u8_value(2)]));
    assert_eq!(compare(0, &record(labels_ab), &record(labels_ab)), Ok(true));
    assert_eq!(compare(0, &record(labels_ab), &record(labels_ba)), Ok(false));
    assert_eq!(compare(0, &value(Value::Universe), &u8_value(1)), Ok(false));
}

#[test]
fn conversion_knows_the_eta_laws() {
    let scope = Scope::new();
    // fun x => f x, where f is the variable at level 0
    let body = Term::FunApp(
        Span::Empty,
        keep(&scope, Term::LocalVar(Span::Empty, Index(1))),
        keep(&scope, Term::LocalVar(Span::Empty, Index(0))),
    );
    let mut captured: SharedEnv<ArcValue> = SharedEnv::new();
    captured.push(local(0));
    let expansion = value(Value::FunLit(None, Closure::new(captured, keep(&scope, body))));
    assert_eq!(compare(1, &expansion, &local(0)), Ok(true));
    assert_eq!(compare(1, &local(0), &expansion), Ok(true));
    assert_eq!(compare(2, &expansion, &local(1)), Ok(false));

    // { a = r.a, b = r.b }, where r is the variable at level 0
    let items: SliceEnv<ArcValue> = SliceEnv::new();
    let metas: SliceEnv<Option<ArcValue>> = SliceEnv::new();
    let env = ElimEnv::new(&items, &metas);
    let labels: &[StringId] = &[StringId(1), StringId(2)];
    let fields = vec![
        env.record_proj(local(0), StringId(1)).unwrap(),
        env.record_proj(local(0), StringId(2)).unwrap(),
    ];
    let record = value(Value::RecordLit(labels, fields));
    assert_eq!(compare(1, &record, &local(0)), Ok(true));
    assert_eq!(compare(1, &local(0), &record), Ok(true));
    assert_eq!(compare(2, &record, &local(1)), Ok(false));
}

#[test]
fn conversion_compares_function_types_under_a_binder() {
    let scope = Scope::new();
    let var = keep(&scope, Term::LocalVar(Span::Empty, Index(0)));
    let universe = keep(&scope, Term::Universe(Span::Empty));
    let fun_type = |name: u16, body| {
        value(Value::FunType(
            Some(StringId(name)),
            value(Value::Universe),
            Closure::new(SharedEnv::new(), body),
        ))
    };
    // (A : Type) -> A  and  (B : Type) -> B
    assert_eq!(compare(0, &fun_type(1, var), &fun_type(2, var)), Ok(true));
    // (A : Type) -> A  and  (A : Type) -> Type
    assert_eq!(compare(0, &fun_type(1, var), &fun_type(1, universe)), Ok(false));
}

#[test]
fn quotation_reads_values_back() {
    let scope = Scope::new();
    let items: SliceEnv<ArcValue> = SliceEnv::new();
    let mut metas: SliceEnv<Option<ArcValue>> = SliceEnv::new();
    metas.push(Some(value(Value::Universe)));
    metas.push(None);
    let elim_env = ElimEnv::new(&items, &metas);
    let mut env = QuoteEnv::new(elim_env, EnvLen(3));
    // The variable at level 0 is two bindings away from the most recent.
    assert!(matches!(env.quote(&scope, &local(0), FUEL), Ok(Term::LocalVar(_, Index(2)))));
    assert!(matches!(env.quote(&scope, &local(2), FUEL), Ok(Term::LocalVar(_, Index(0)))));
    assert!(matches!(
        env.quote(&scope, &local(3), FUEL),
        Err(Stop::Error(Error::UnboundLocalVar))
    ));
    // A solved metavariable is forced away; one without a solution stays.
    assert!(matches!(
        env.quote(&scope, &value(Value::meta_var(Level(0))), FUEL),
        Ok(Term::Universe(_))
    ));
    assert!(matches!(
        env.quote(&scope, &value(Value::meta_var(Level(1))), FUEL),
        Ok(Term::MetaVar(_, Level(1)))
    ));
    let mut unfolding = QuoteEnv::new(elim_env, EnvLen(3)).unfolding_metas();
    assert!(unfolding.unfold_metas);
    assert!(matches!(
        unfolding.quote(&scope, &value(Value::meta_var(Level(1))), FUEL),
        Ok(Term::MetaVar(_, Level(1)))
    ));
    assert!(matches!(
        unfolding.quote(&scope, &value(Value::meta_var(Level(2))), FUEL),
        Err(Stop::Error(Error::UnboundMetaVar))
    ));
    // A function literal is quoted under a fresh variable.
    let body = keep(&scope, Term::LocalVar(Span::Empty, Index(0)));
    let identity = value(Value::FunLit(Some(StringId(9)), Closure::new(SharedEnv::new(), body)));
    match env.quote(&scope, &identity, FUEL) {
        Ok(Term::FunLit(_, Some(StringId(9)), body)) => {
            assert!(matches!(body, Term::LocalVar(_, Index(0))))
        }
        _ => panic!("the identity is no function literal"),
    }
    assert_eq!(env.local_exprs, EnvLen(3));
}

#[test]
fn unfolding_replaces_solved_metavariables() {
    let scope = Scope::new();
    let items: SliceEnv<ArcValue> = SliceEnv::new();
    let mut metas: SliceEnv<Option<ArcValue>> = SliceEnv::new();
    // ?0 := fun x => x, ?1 has no solution
    let body = keep(&scope, Term::LocalVar(Span::Empty, Index(0)));
    metas.push(Some(value(Value::FunLit(None, Closure::new(SharedEnv::new(), body)))));
    metas.push(None);
    let mut locals: SharedEnv<ArcValue> = SharedEnv::new();
    let mut env = EvalEnv::new(ElimEnv::new(&items, &metas), &mut locals);

    // ?0 Type unfolds to Type
    let solved = Term::FunApp(
        Span::Empty,
        keep(&scope, Term::MetaVar(Span::Empty, Level(0))),
        keep(&scope, Term::Universe(Span::Empty)),
    );
    assert!(matches!(env.unfold_metas(&scope, &solved, FUEL), Ok(Term::Universe(_))));

    // ?1 Type stays as it is
    let unsolved = Term::FunApp(
        Span::Empty,
        keep(&scope, Term::MetaVar(Span::Empty, Level(1))),
        keep(&scope, Term::Universe(Span::Empty)),
    );
    match env.unfold_metas(&scope, &unsolved, FUEL) {
        Ok(Term::FunApp(_, head, arg)) => {
            assert!(matches!(head, Term::MetaVar(_, Level(1))));
            assert!(matches!(arg, Term::Universe(_)));
        }
        _ => panic!("the application of an unsolved metavariable is gone"),
    }

    // fun y => ?0 y unfolds to fun y => y
    let inner = Term::FunApp(
        Span::Empty,
        keep(&scope, Term::MetaVar(Span::Empty, Level(0))),
        keep(&scope, Term::LocalVar(Span::Empty, Index(0))),
    );
    let fun_lit = Term::FunLit(Span::Empty, Some(StringId(3)), keep(&scope, inner));
    match env.unfold_metas(&scope, &fun_lit, FUEL) {
        Ok(Term::FunLit(_, Some(StringId(3)), body)) => {
            assert!(matches!(body, Term::LocalVar(_, Index(0))))
        }
        _ => panic!("the function literal is gone"),
    }

    // An inserted metavariable is applied to the parameters in scope.
    let infos: &[LocalInfo] = &[LocalInfo::Def, LocalInfo::Param];
    let inserted = Term::InsertedMeta(Span::Empty, Level(0), infos);
    let unsolved_inserted = Term::InsertedMeta(Span::Empty, Level(1), infos);
    drop(env);
    locals.push(u8_value(1));
    locals.push(u8_value(2));
    let mut env = EvalEnv::new(ElimEnv::new(&items, &metas), &mut locals);
    assert!(matches!(
        env.unfold_metas(&scope, &inserted, FUEL),
        Ok(Term::ConstLit(_, Const::U8(2, _)))
    ));
    match env.eval(&inserted, FUEL) {
        Ok(value) => assert!(matches!(&*value.inner, Value::ConstLit(Const::U8(2, _)))),
        Err(_) => panic!("the inserted metavariable has a value"),
    }
    assert!(matches!(
        env.unfold_metas(&scope, &unsolved_inserted, FUEL),
        Ok(Term::InsertedMeta(_, Level(1), _))
    ));
    assert!(matches!(
        env.unfold_metas(&scope, &Term::MetaVar(Span::Empty, Level(2)), FUEL),
        Err(Stop::Error(Error::UnboundMetaVar))
    ));
}

#[test]
fn spans_of_terms_reach_the_values() {
    let span = Span::Range(ByteRange::new(0, 3, 7));
    let items: SliceEnv<ArcValue> = SliceEnv::new();
    let metas: SliceEnv<Option<ArcValue>> = SliceEnv::new();
    let mut locals: SharedEnv<ArcValue> = SharedEnv::new();
    let mut env = EvalEnv::new(ElimEnv::new(&items, &metas), &mut locals);
    let universe = env.eval(&Term::Universe(span), FUEL).unwrap();
    assert_eq!(universe.span(), span);
    let term = Term::Universe(span);
    assert_eq!(term.span(), span);
}

fn mentions_meta(term: &Term, var: Level) -> bool {
    match term {
        Term::MetaVar(_, found) => *found == var,
        Term::InsertedMeta(_, found, _) => *found == var,
        Term::Ann(_, expr, ty) => mentions_meta(expr, var) || mentions_meta(ty, var),
        Term::Let(_, _, def_type, def_expr, body) => {
            mentions_meta(def_type, var) || mentions_meta(def_expr, var) || mentions_meta(body, var)
        }
        Term::FunType(_, _, param, body) => mentions_meta(param, var) || mentions_meta(body, var),
        Term::FunLit(_, _, body) => mentions_meta(body, var),
        Term::FunApp(_, head, arg) => mentions_meta(head, var) || mentions_meta(arg, var),
        Term::RecordProj(_, head, _) => mentions_meta(head, var),
        Term::RecordType(_, _, terms)
        | Term::RecordLit(_, _, terms)
        | Term::FormatRecord(_, _, terms)
        | Term::FormatOverlap(_, _, terms) => terms.iter().any(|term| mentions_meta(term, var)),
        Term::ArrayLit(_, terms) => terms.iter().any(|term| mentions_meta(term, var)),
        Term::FormatCond(_, _, format, cond) => mentions_meta(format, var) || mentions_meta(cond, var),
        Term::ConstMatch(_, head, branches, default) => {
            mentions_meta(head, var)
                || branches.iter().any(|(_, term)| mentions_meta(term, var))
                || default.map_or(false, |term| mentions_meta(term, var))
        }
        _ => false,
    }
}

#[test]
fn an_unfolded_term_mentions_no_solved_metavariable() {
    let scope = Scope::new();
    let items: SliceEnv<ArcValue> = SliceEnv::new();
    let mut metas: SliceEnv<Option<ArcValue>> = SliceEnv::new();
    // ?0 := ?1 x for the parameter x, ?1 := fun y => U8, ?2 has no solution
    metas.push(Some(value(Value::FunLit(
        None,
        Closure::new(
            SharedEnv::new(),
            keep(
                &scope,
                Term::FunApp(
                    Span::Empty,
                    keep(&scope, Term::MetaVar(Span::Empty, Level(1))),
                    keep(&scope, Term::LocalVar(Span::Empty, Index(0))),
                ),
            ),
        ),
    ))));
    metas.push(Some(value(Value::FunLit(
        None,
        Closure::new(SharedEnv::new(), keep(&scope, Term::Prim(Span::Empty, Prim::U8Type))),
    ))));
    metas.push(None);
    let body = Term::FunApp(
        Span::Empty,
        keep(&scope, Term::MetaVar(Span::Empty, Level(0))),
        keep(&scope, Term::MetaVar(Span::Empty, Level(2))),
    );
    let term = Term::FunLit(
        Span::Empty,
        None,
        keep(
            &scope,
            Term::ArrayLit(
                Span::Empty,
                keep(&scope, vec![body, Term::MetaVar(Span::Empty, Level(1))]),
            ),
        ),
    );
    let mut locals: SharedEnv<ArcValue> = SharedEnv::new();
    let mut env = EvalEnv::new(ElimEnv::new(&items, &metas), &mut locals);
    let unfolded = env.unfold_metas(&scope, &term, FUEL).unwrap();
    assert!(!mentions_meta(&unfolded, Level(0)));
    assert!(!mentions_meta(&unfolded, Level(1)));
    assert!(mentions_meta(&term, Level(0)));
}
