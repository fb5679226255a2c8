//! Checks of unification.

use std::sync::Arc;

use fathom::arena::Scope;
use fathom::core_lang::conversion::ConversionEnv;
use fathom::core_lang::semantics::{ArcValue, Closure, ElimEnv, EvalEnv, Head, Stop, Value};
use fathom::core_lang::unification::{Context, Failure, UnifyError};
use fathom::core_lang::{Const, LocalInfo, Prim, Term};
use fathom::env::{EnvLen, Index, Level, SharedEnv, SliceEnv};
use fathom::source::{Span, Spanned};
use fathom::symbol::StringId;

const FUEL: usize = 1000;

/// Keeps a value for as long as the arena lives.
fn keep<'a, T>(_scope: &'a Scope<'a>, value: T) -> &'a T {
    Box::leak(Box::new(value))
}

/// Keeps a copy of the items for as long as the arena lives.
fn keep_all<'a, T: Copy>(_scope: &'a Scope<'a>, items: &[T]) -> &'a [T] {
    Vec::leak(items.to_vec())
}

fn value<'a>(value: Value<'a>) -> ArcValue<'a> {
    Spanned::empty(Arc::new(value))
}

fn prim<'a>(prim: Prim, params: Vec<ArcValue<'a>>) -> ArcValue<'a> {
    value(Value::prim(prim, params))
}

fn local<'a>(level: u16) -> ArcValue<'a> {
    value(Value::local_var(Level(level)))
}

fn meta<'a>(level: u16) -> ArcValue<'a> {
    value(Value::meta_var(Level(level)))
}

fn apply<'a>(metas: &SliceEnv<Option<ArcValue<'a>>>, head: ArcValue<'a>, args: Vec<ArcValue<'a>>) -> ArcValue<'a> {
    let items: SliceEnv<ArcValue<'a>> = SliceEnv::new();
    let env = ElimEnv::new(&items, metas);
    let mut head = head;
    for arg in args {
        head = env.fun_app(head, arg, FUEL).unwrap();
    }
    head
}

fn metas<'a>(count: usize) -> SliceEnv<Option<ArcValue<'a>>> {
    let mut metas = SliceEnv::new();
    for _ in 0..count {
        metas.push(None);
    }
    metas
}

fn unify<'a>(
    scope: &'a Scope<'a>,
    metas: &mut SliceEnv<Option<ArcValue<'a>>>,
    len: u16,
    value0: &ArcValue<'a>,
    value1: &ArcValue<'a>,
) -> Result<(), Failure> {
    let items: SliceEnv<ArcValue<'a>> = SliceEnv::new();
    let mut context = Context::new(scope, &items, EnvLen(len), metas);
    context.unify(value0, value1, FUEL)
}

fn is_equal<'a>(
    metas: &SliceEnv<Option<ArcValue<'a>>>,
    len: u16,
    value0: &ArcValue<'a>,
    value1: &ArcValue<'a>,
) -> Result<bool, Stop> {
    let items: SliceEnv<ArcValue<'a>> = SliceEnv::new();
    let mut env = ConversionEnv::new(ElimEnv::new(&items, metas), EnvLen(len));
    env.is_equal(value0, value1, FUEL)
}

fn force<'a>(metas: &SliceEnv<Option<ArcValue<'a>>>, value: &ArcValue<'a>) -> ArcValue<'a> {
    let items: SliceEnv<ArcValue<'a>> = SliceEnv::new();
    ElimEnv::new(&items, metas).force(value, FUEL).unwrap()
}

fn is_prim(value: &ArcValue, prim: Prim) -> bool {
    matches!(&*value.inner, Value::Stuck(Head::Prim(found), spine) if *found == prim && spine.is_empty())
}

#[test]
fn a_metavariable_is_solved_by_the_other_value() {
    let scope = Scope::new();
    let mut table = metas(1);
    let bool_type = prim(Prim::BoolType, vec![]);
    assert_eq!(unify(&scope, &mut table, 0, &meta(0), &bool_type), Ok(()));
    assert!(is_prim(&force(&table, &meta(0)), Prim::BoolType));
    // Unification is sound: the values are equal after it.
    assert_eq!(is_equal(&table, 0, &meta(0), &bool_type), Ok(true));
    // The solution stays when the metavariable meets another value.
    let u8_type = prim(Prim::U8Type, vec![]);
    assert_eq!(
        unify(&scope, &mut table, 0, &meta(0), &u8_type),
        Err(Failure::Unify(UnifyError::Mismatch))
    );
    assert!(is_prim(&force(&table, &meta(0)), Prim::BoolType));
    assert_eq!(unify(&scope, &mut table, 0, &bool_type, &meta(0)), Ok(()));
}

#[test]
fn unification_is_symmetric() {
    let scope = Scope::new();
    let bool_type = prim(Prim::BoolType, vec![]);
    let mut left = metas(1);
    let mut right = metas(1);
    assert_eq!(unify(&scope, &mut left, 0, &meta(0), &bool_type), Ok(()));
    assert_eq!(unify(&scope, &mut right, 0, &bool_type, &meta(0)), Ok(()));
    assert!(is_prim(&force(&left, &meta(0)), Prim::BoolType));
    assert!(is_prim(&force(&right, &meta(0)), Prim::BoolType));
}

#[test]
fn of_two_metavariables_the_higher_is_solved() {
    let scope = Scope::new();
    for swap in [false, true] {
        let mut table = metas(2);
        let (value0, value1) = if swap { (meta(1), meta(0)) } else { (meta(0), meta(1)) };
        assert_eq!(unify(&scope, &mut table, 0, &value0, &value1), Ok(()));
        assert!(matches!(table.get_level(Level(0)), Some(None)));
        assert!(matches!(
            &*force(&table, &meta(1)).inner,
            Value::Stuck(Head::MetaVar(Level(0)), spine) if spine.is_empty()
        ));
    }
    // A metavariable unifies with itself without a solution.
    let mut table = metas(1);
    assert_eq!(unify(&scope, &mut table, 0, &meta(0), &meta(0)), Ok(()));
    assert!(matches!(table.get_level(Level(0)), Some(None)));
}

#[test]
fn rigid_values_unify_when_they_are_equal() {
    let scope = Scope::new();
    let mut table = metas(0);
    let bool_type = prim(Prim::BoolType, vec![]);
    let u8_type = prim(Prim::U8Type, vec![]);
    assert_eq!(unify(&scope, &mut table, 2, &local(0), &local(0)), Ok(()));
    assert_eq!(
        unify(&scope, &mut table, 2, &local(0), &local(1)),
        Err(Failure::Unify(UnifyError::Mismatch))
    );
    assert_eq!(unify(&scope, &mut table, 0, &bool_type, &bool_type), Ok(()));
    assert_eq!(
        unify(&scope, &mut table, 0, &bool_type, &u8_type),
        Err(Failure::Unify(UnifyError::Mismatch))
    );
    assert_eq!(
        unify(&scope, &mut table, 0, &value(Value::Universe), &value(Value::Universe)),
        Ok(())
    );
    assert_eq!(
        unify(&scope, &mut table, 0, &value(Value::Universe), &bool_type),
        Err(Failure::Unify(UnifyError::Mismatch))
    );
    let one = value(Value::ConstLit(Const::Bool(true)));
    let other = value(Value::ConstLit(Const::Bool(false)));
    assert_eq!(unify(&scope, &mut table, 0, &one, &one), Ok(()));
    assert_eq!(
        unify(&scope, &mut table, 0, &one, &other),
        Err(Failure::Unify(UnifyError::Mismatch))
    );
    // A reported error unifies with everything.
    let error = prim(Prim::ReportedError, vec![]);
    assert_eq!(unify(&scope, &mut table, 0, &error, &one), Ok(()));
    assert_eq!(unify(&scope, &mut table, 0, &bool_type, &error), Ok(()));
}

#[test]
fn metavariables_inside_values_are_solved() {
    let scope = Scope::new();
    let mut table = metas(2);
    // Array8 ?0 ?1  with  Array8 3 Bool
    let three = value(Value::ConstLit(Const::U8(3, fathom::core_lang::UIntStyle::Decimal)));
    let flexible = prim(Prim::Array8Type, vec![meta(0), meta(1)]);
    let rigid = prim(Prim::Array8Type, vec![three, prim(Prim::BoolType, vec![])]);
    assert_eq!(unify(&scope, &mut table, 0, &flexible, &rigid), Ok(()));
    assert!(matches!(&*force(&table, &meta(0)).inner, Value::ConstLit(Const::U8(3, _))));
    assert!(is_prim(&force(&table, &meta(1)), Prim::BoolType));
    assert_eq!(is_equal(&table, 0, &flexible, &rigid), Ok(true));
}

#[test]
fn a_pattern_spine_gives_a_function() {
    let scope = Scope::new();
    let mut table = metas(1);
    // ?0 x y  with  y, where x and y are the variables at the levels 0 and 1
    let applied = apply(&table, meta(0), vec![local(0), local(1)]);
    assert_eq!(unify(&scope, &mut table, 2, &applied, &local(1)), Ok(()));
    // The solution is fun a => fun b => b.
    let solution = force(&table, &meta(0));
    assert!(matches!(&*solution.inner, Value::FunLit(_, _)));
    let picked = apply(&table, meta(0), vec![prim(Prim::BoolType, vec![]), prim(Prim::U8Type, vec![])]);
    assert!(is_prim(&force(&table, &picked), Prim::U8Type));
    assert_eq!(is_equal(&table, 2, &applied, &local(1)), Ok(true));
}

#[test]
fn unification_failures() {
    let scope = Scope::new();

    // ?0 with Array ?0: the solution would hold itself.
    let mut table = metas(1);
    let array = prim(Prim::ArrayType, vec![meta(0)]);
    assert_eq!(
        unify(&scope, &mut table, 0, &meta(0), &array),
        Err(Failure::Unify(UnifyError::InfiniteSolution))
    );

    // ?0 with x: the variable is not among the arguments of the metavariable.
    assert_eq!(
        unify(&scope, &mut table, 1, &meta(0), &local(0)),
        Err(Failure::Unify(UnifyError::EscapingRigidVariable))
    );

    // ?0 x x: the same variable twice.
    let twice = apply(&table, meta(0), vec![local(0), local(0)]);
    assert_eq!(
        unify(&scope, &mut table, 1, &twice, &value(Value::Universe)),
        Err(Failure::Unify(UnifyError::NonLinearSpine))
    );

    // ?0 Bool: the argument is no variable.
    let on_type = apply(&table, meta(0), vec![prim(Prim::BoolType, vec![])]);
    assert_eq!(
        unify(&scope, &mut table, 1, &on_type, &value(Value::Universe)),
        Err(Failure::Unify(UnifyError::NonPatternSpine))
    );

    // ?0.l: a projection is no application.
    let items: SliceEnv<ArcValue> = SliceEnv::new();
    let projected = ElimEnv::new(&items, &table).record_proj(meta(0), StringId(1)).unwrap();
    assert_eq!(
        unify(&scope, &mut table, 1, &projected, &value(Value::Universe)),
        Err(Failure::Unify(UnifyError::NonPatternSpine))
    );
    assert!(matches!(table.get_level(Level(0)), Some(None)));

    // A metavariable that is not in the table.
    assert_eq!(
        unify(&scope, &mut table, 0, &meta(7), &value(Value::Universe)),
        Err(Failure::Stop(Stop::Error(fathom::core_lang::semantics::Error::UnboundMetaVar)))
    );
    assert_eq!(
        Context::new(&scope, &items, EnvLen(0), &mut table).unify(&meta(0), &meta(0), 0),
        Err(Failure::Stop(Stop::Limit))
    );
}

#[test]
fn function_literals_unify_by_eta() {
    let scope = Scope::new();
    let mut table = metas(1);
    // fun x => ?0 x  with  f, where f is the variable at level 0: ?0 := fun x => f x
    let body = Term::FunApp(
        Span::Empty,
        keep(&scope, Term::MetaVar(Span::Empty, Level(0))),
        keep(&scope, Term::LocalVar(Span::Empty, Index(0))),
    );
    let fun_lit = value(Value::FunLit(None, Closure::new(SharedEnv::new(), keep(&scope, body))));
    assert_eq!(
        unify(&scope, &mut table, 1, &fun_lit, &local(0)),
        Err(Failure::Unify(UnifyError::EscapingRigidVariable))
    );
    // With f among the arguments of the metavariable it is solved.
    let mut table = metas(1);
    let body = Term::FunApp(
        Span::Empty,
        keep(&scope, Term::FunApp(
            Span::Empty,
            keep(&scope, Term::MetaVar(Span::Empty, Level(0))),
            keep(&scope, Term::LocalVar(Span::Empty, Index(1))),
        )),
        keep(&scope, Term::LocalVar(Span::Empty, Index(0))),
    );
    let mut captured: SharedEnv<ArcValue> = SharedEnv::new();
    captured.push(local(0));
    let fun_lit = value(Value::FunLit(None, Closure::new(captured, keep(&scope, body))));
    assert_eq!(unify(&scope, &mut table, 1, &fun_lit, &local(0)), Ok(()));
    assert_eq!(is_equal(&table, 1, &fun_lit, &local(0)), Ok(true));
}

#[test]
fn an_inserted_metavariable_is_solved_by_unification() {
    // let id : (A : Type) -> A -> A = fun A => fun x => x; id _ true
    let scope = Scope::new();
    let a = Some(StringId(1));
    let x = Some(StringId(2));
    let var = |index: u16| Term::LocalVar(Span::Empty, Index(index));
    let id_type = Term::FunType(
        Span::Empty,
        a,
        keep(&scope, Term::Universe(Span::Empty)),
        keep(&scope, Term::FunType(Span::Empty, x, keep(&scope, var(0)), keep(&scope, var(1)))),
    );
    let id_expr = Term::FunLit(
        Span::Empty,
        a,
        keep(&scope, Term::FunLit(Span::Empty, x, keep(&scope, var(0)))),
    );
    // The hole is a metavariable inserted under the definition of `id`.
    let infos: &[LocalInfo] = keep_all(&scope, &[LocalInfo::Def]);
    let hole = Term::InsertedMeta(Span::Empty, Level(0), infos);
    let body = Term::FunApp(
        Span::Empty,
        keep(&scope, Term::FunApp(Span::Empty, keep(&scope, var(0)), keep(&scope, hole))),
        keep(&scope, Term::ConstLit(Span::Empty, Const::Bool(true))),
    );
    let term = Term::Let(
        Span::Empty,
        Some(StringId(3)),
        keep(&scope, id_type),
        keep(&scope, id_expr),
        keep(&scope, body),
    );

    let items: SliceEnv<ArcValue> = SliceEnv::new();
    let mut table = metas(1);
    // Checking `true` against the type `?0` of the parameter of `id ?0`
    // unifies the type of `true` with the metavariable.
    let bool_type = prim(Prim::BoolType, vec![]);
    let mut context = Context::new(&scope, &items, EnvLen(1), &mut table);
    assert_eq!(context.unify(&bool_type, &meta(0), FUEL), Ok(()));
    assert!(is_prim(&force(&table, &meta(0)), Prim::BoolType));

    let mut locals: SharedEnv<ArcValue> = SharedEnv::new();
    let mut env = EvalEnv::new(ElimEnv::new(&items, &table), &mut locals);
    assert!(matches!(
        env.normalise(&scope, &term, FUEL),
        Ok(Term::ConstLit(_, Const::Bool(true)))
    ));
    // With the solution unfolded, no metavariable is left in the term.
    match env.unfold_metas(&scope, &term, FUEL) {
        Ok(Term::Let(_, _, _, _, Term::FunApp(_, Term::FunApp(_, _, hole), _))) => {
            assert!(matches!(hole, Term::Prim(_, Prim::BoolType)))
        }
        _ => panic!("the definition is gone"),
    }
}

#[test]
fn values_unified_without_a_solution_are_convertible() {
    let scope = Scope::new();
    // One metavariable without a solution, which no pair below has to solve.
    let mut table = metas(1);
    let u8_type = prim(Prim::U8Type, vec![]);
    let pairs = vec![
        (local(0), local(0)),
        (value(Value::Universe), value(Value::Universe)),
        (prim(Prim::ArrayType, vec![u8_type.clone()]), prim(Prim::ArrayType, vec![u8_type.clone()])),
        (apply(&table, meta(0), vec![local(1)]), apply(&table, meta(0), vec![local(1)])),
        (
            value(Value::ArrayLit(vec![local(0), u8_type.clone()])),
            value(Value::ArrayLit(vec![local(0), u8_type.clone()])),
        ),
    ];
    for (value0, value1) in &pairs {
        assert_eq!(unify(&scope, &mut table, 2, value0, value1), Ok(()));
        assert!(table.get_level(Level(0)).unwrap().is_none());
        assert_eq!(is_equal(&table, 2, value0, value1), Ok(true));
    }
}

#[test]
fn unification_keeps_the_solutions_it_found() {
    let scope = Scope::new();
    let mut table = metas(2);
    let u8_type = prim(Prim::U8Type, vec![]);
    assert_eq!(unify(&scope, &mut table, 0, &meta(0), &u8_type), Ok(()));
    assert!(is_prim(table.get_level(Level(0)).unwrap().as_ref().unwrap(), Prim::U8Type));
    assert_eq!(unify(&scope, &mut table, 0, &meta(1), &value(Value::Universe)), Ok(()));
    assert!(is_prim(table.get_level(Level(0)).unwrap().as_ref().unwrap(), Prim::U8Type));
    assert!(matches!(
        &*table.get_level(Level(1)).unwrap().as_ref().unwrap().inner,
        Value::Universe
    ));
}

#[test]
fn the_solution_of_a_metavariable_that_stands_alone_is_convertible_to_the_value() {
    let scope = Scope::new();
    let body = keep(&scope, Term::LocalVar(Span::Empty, Index(0)));
    let identity = value(Value::FunLit(Some(StringId(9)), Closure::new(SharedEnv::new(), body)));
    let values = vec![
        value(Value::Universe),
        prim(Prim::ArrayType, vec![prim(Prim::U8Type, vec![])]),
        identity,
        value(Value::ArrayLit(vec![value(Value::Universe), prim(Prim::BoolType, vec![])])),
    ];
    for rigid in &values {
        let before = metas(1);
        let mut table = metas(1);
        assert_eq!(unify(&scope, &mut table, 0, &meta(0), rigid), Ok(()));
        let solution = table.get_level(Level(0)).unwrap().as_ref().unwrap();
        // Under the solutions that were there, and under those that are.
        assert_eq!(is_equal(&before, 0, solution, rigid), Ok(true));
        assert_eq!(is_equal(&table, 0, &meta(0), rigid), Ok(true));
    }
}

#[test]
fn the_solution_applied_to_the_local_variables_is_convertible_to_the_value() {
    let scope = Scope::new();
    let before = metas(1);
    let values = vec![
        local(1),
        prim(Prim::ArrayType, vec![local(0)]),
        value(Value::ArrayLit(vec![local(1), local(0), value(Value::Universe)])),
        prim(Prim::FormatRepr, vec![local(1)]),
    ];
    for rigid in &values {
        let mut table = metas(1);
        let flexible = apply(&table, meta(0), vec![local(0), local(1)]);
        assert_eq!(unify(&scope, &mut table, 2, &flexible, rigid), Ok(()));
        let solution = table.get_level(Level(0)).unwrap().as_ref().unwrap().clone();
        let applied = apply(&before, solution, vec![local(0), local(1)]);
        assert_eq!(is_equal(&before, 2, &applied, rigid), Ok(true));
        assert_eq!(is_equal(&table, 2, &flexible, rigid), Ok(true));
    }
}
