//! The laws of normalisation and conversion, on small closed terms.

use std::sync::Arc;

use fathom::arena::Scope;
use fathom::core_lang::conversion::ConversionEnv;
use fathom::core_lang::quote::QuoteEnv;
use fathom::core_lang::semantics::{ArcValue, ElimEnv, EvalEnv, Stop, Value};
use fathom::core_lang::{Const, Prim, Term, UIntStyle};
use fathom::env::{EnvLen, Index, Level, SharedEnv, SliceEnv};
use fathom::source::{Span, Spanned};
use fathom::symbol::StringId;

const FUEL: usize = 1000;

/// Keeps a value for as long as the arena lives.
fn keep<'a, T>(_scope: &'a Scope<'a>, value: T) -> &'a T {
    Box::leak(Box::new(value))
}

/// Keeps a copy of the items for as long as the arena lives.
fn keep_all<'a, T: Copy>(_scope: &'a Scope<'a>, items: &[T]) -> &'a [T] {
    Vec::leak(items.to_vec())
}

fn call<'a>(scope: &'a Scope<'a>, head: Term<'a>, arg: Term<'a>) -> Term<'a> {
    Term::FunApp(Span::Empty, keep(&scope, head), keep(&scope, arg))
}

fn lambda<'a>(scope: &'a Scope<'a>, name: u16, body: Term<'a>) -> Term<'a> {
    Term::FunLit(Span::Empty, Some(StringId(name)), keep(&scope, body))
}

fn local_at<'a>(index: u16) -> Term<'a> {
    Term::LocalVar(Span::Empty, Index(index))
}

fn byte<'a>(value: u8) -> Term<'a> {
    Term::ConstLit(Span::Empty, Const::U8(value, UIntStyle::Decimal))
}

fn primitive<'a>(prim: Prim) -> Term<'a> {
    Term::Prim(Span::Empty, prim)
}

fn universe<'a>() -> Term<'a> {
    Term::Universe(Span::Empty)
}

fn normal_form<'a>(scope: &'a Scope<'a>, term: &Term<'a>, fuel: usize) -> Result<Term<'a>, Stop> {
    let items: SliceEnv<ArcValue<'a>> = SliceEnv::new();
    let metas: SliceEnv<Option<ArcValue<'a>>> = SliceEnv::new();
    let mut locals: SharedEnv<ArcValue<'a>> = SharedEnv::new();
    let mut env = EvalEnv::new(ElimEnv::new(&items, &metas), &mut locals);
    env.normalise(scope, term, fuel)
}

fn value_of<'a>(term: &Term<'a>, fuel: usize) -> Result<ArcValue<'a>, Stop> {
    let items: SliceEnv<ArcValue<'a>> = SliceEnv::new();
    let metas: SliceEnv<Option<ArcValue<'a>>> = SliceEnv::new();
    let mut locals: SharedEnv<ArcValue<'a>> = SharedEnv::new();
    let mut env = EvalEnv::new(ElimEnv::new(&items, &metas), &mut locals);
    env.eval(term, fuel)
}

fn convertible<'a>(value0: &ArcValue<'a>, value1: &ArcValue<'a>) -> Result<bool, Stop> {
    let items: SliceEnv<ArcValue<'a>> = SliceEnv::new();
    let metas: SliceEnv<Option<ArcValue<'a>>> = SliceEnv::new();
    let mut env = ConversionEnv::new(ElimEnv::new(&items, &metas), EnvLen(0));
    env.is_equal(value0, value1, FUEL)
}

fn shown(term: &Term) -> String {
    format!("{:?}", term)
}

/// Closed terms of several shapes: redexes, functions, stuck primitives,
/// a function type and an array.
fn samples<'a>(scope: &'a Scope<'a>) -> Vec<Term<'a>> {
    let identity = lambda(scope, 0, local_at(0));
    let constant = lambda(scope, 0, lambda(scope, 1, local_at(1)));
    let sum = call(scope, call(scope, primitive(Prim::U8Add), byte(1)), byte(2));
    let overflow = call(scope, call(scope, primitive(Prim::U8Add), byte(255)), byte(1));
    let add_one = lambda(
        scope,
        0,
        call(scope, call(scope, primitive(Prim::U8Add), local_at(0)), byte(1)),
    );
    let arrow = Term::FunType(
        Span::Empty,
        None,
        keep(&scope, primitive(Prim::U8Type)),
        keep(&scope, call(scope, lambda(scope, 1, local_at(0)), primitive(Prim::U8Type))),
    );
    let array = Term::ArrayLit(
        Span::Empty,
        keep(&scope, vec![call(scope, lambda(scope, 0, local_at(0)), byte(7)), byte(8)]),
    );
    let labels: &[StringId] = keep_all(&scope, &[StringId(7), StringId(8)]);
    let record_type = Term::RecordType(
        Span::Empty,
        labels,
        keep(&scope, vec![primitive(Prim::U8Type), call(scope, primitive(Prim::ArrayType), local_at(0))]),
    );
    let record = Term::RecordLit(
        Span::Empty,
        labels,
        keep(&scope, vec![call(scope, lambda(scope, 0, local_at(0)), byte(1)), universe()]),
    );
    let projection = lambda(
        scope,
        0,
        Term::RecordProj(Span::Empty, keep(&scope, local_at(0)), StringId(8)),
    );
    let matching = lambda(
        scope,
        0,
        Term::ConstMatch(
            Span::Empty,
            keep(&scope, local_at(0)),
            keep(&scope, vec![(Const::U8(0, UIntStyle::Decimal), byte(1))]),
            Some(keep(&scope, local_at(0))),
        ),
    );
    let format = Term::FormatRecord(
        Span::Empty,
        labels,
        keep(&scope, vec![
            primitive(Prim::FormatU8),
            call(
                scope,
                call(scope, primitive(Prim::FormatArray8), local_at(0)),
                primitive(Prim::FormatU8),
            ),
        ]),
    );
    let repr = lambda(scope, 0, call(scope, primitive(Prim::FormatRepr), local_at(0)));
    let search = lambda(
        scope,
        0,
        call(
            scope,
            call(
                scope,
                call(
                    scope,
                    call(scope, primitive(Prim::Array8Find), byte(3)),
                    primitive(Prim::U8Type),
                ),
                lambda(
                    scope,
                    1,
                    call(scope, call(scope, primitive(Prim::U8Eq), local_at(0)), byte(0)),
                ),
            ),
            local_at(0),
        ),
    );
    vec![
        repr,
        search,
        record_type,
        record,
        projection,
        matching,
        format,
        universe(),
        byte(3),
        call(scope, lambda(scope, 0, local_at(0)), universe()),
        identity,
        constant,
        sum,
        overflow,
        call(scope, add_one, byte(4)),
        lambda(
            scope,
            0,
            call(scope, call(scope, primitive(Prim::U8Add), local_at(0)), byte(1)),
        ),
        arrow,
        array,
    ]
}

#[test]
fn normalising_a_normal_form_changes_nothing() {
    let scope = Scope::new();
    for term in samples(&scope) {
        let once = normal_form(&scope, &term, FUEL).unwrap();
        let twice = normal_form(&scope, &once, FUEL).unwrap();
        assert_eq!(shown(&once), shown(&twice));
    }
}

#[test]
fn a_normal_form_is_convertible_to_its_term() {
    let scope = Scope::new();
    for term in samples(&scope) {
        let value = value_of(&term, FUEL).unwrap();
        let normal = normal_form(&scope, &term, FUEL).unwrap();
        let read_back = value_of(&normal, FUEL).unwrap();
        assert_eq!(convertible(&value, &read_back), Ok(true));
        assert_eq!(convertible(&read_back, &value), Ok(true));
    }
}

#[test]
fn terms_are_convertible_where_their_normal_forms_are_the_same() {
    let scope = Scope::new();
    let terms = samples(&scope);
    for term0 in &terms {
        for term1 in &terms {
            let normal0 = normal_form(&scope, term0, FUEL).unwrap();
            let normal1 = normal_form(&scope, term1, FUEL).unwrap();
            let value0 = value_of(term0, FUEL).unwrap();
            let value1 = value_of(term1, FUEL).unwrap();
            if shown(&normal0) == shown(&normal1) {
                assert_eq!(convertible(&value0, &value1), Ok(true));
            }
        }
    }
    let redex = call(&scope, lambda(&scope, 0, local_at(0)), byte(3));
    assert_eq!(
        shown(&normal_form(&scope, &redex, FUEL).unwrap()),
        shown(&normal_form(&scope, &byte(3), FUEL).unwrap())
    );
    assert_eq!(
        convertible(&value_of(&redex, FUEL).unwrap(), &value_of(&byte(3), FUEL).unwrap()),
        Ok(true)
    );
    assert_eq!(
        convertible(&value_of(&redex, FUEL).unwrap(), &value_of(&byte(4), FUEL).unwrap()),
        Ok(false)
    );
}

#[test]
fn every_value_is_convertible_to_itself() {
    let scope = Scope::new();
    for term in samples(&scope) {
        let value = value_of(&term, FUEL).unwrap();
        assert_eq!(convertible(&value, &value), Ok(true));
    }
}

#[test]
fn a_larger_budget_gives_the_same_answer() {
    let scope = Scope::new();
    for term in samples(&scope) {
        let small = normal_form(&scope, &term, 40).unwrap();
        let large = normal_form(&scope, &term, FUEL).unwrap();
        assert_eq!(shown(&small), shown(&large));
    }
    let redex = call(&scope, lambda(&scope, 0, local_at(0)), universe());
    assert!(matches!(normal_form(&scope, &redex, 1), Err(Stop::Limit)));
}

#[test]
fn a_primitive_over_a_metavariable_solved_later_is_read_back_unreduced() {
    // `u8_add ?0 1` was stuck while ?0 had no solution. With ?0 := 2 the
    // value is read back as `u8_add 2 1`, which evaluates to 3: such a value
    // is not what evaluation yields under the solutions it is read with.
    let scope = Scope::new();
    let items: SliceEnv<ArcValue> = SliceEnv::new();
    let mut metas: SliceEnv<Option<ArcValue>> = SliceEnv::new();
    let two = Spanned::empty(Arc::new(Value::ConstLit(Const::U8(2, UIntStyle::Decimal))));
    let one = Spanned::empty(Arc::new(Value::ConstLit(Const::U8(1, UIntStyle::Decimal))));
    metas.push(Some(two));
    let meta = Spanned::empty(Arc::new(Value::meta_var(Level(0))));
    let stuck = Spanned::empty(Arc::new(Value::prim(Prim::U8Add, vec![meta, one])));
    let elim_env = ElimEnv::new(&items, &metas);
    let mut quote_env = QuoteEnv::new(elim_env, EnvLen(0));
    let read_back = quote_env.quote(&scope, &stuck, FUEL).unwrap();
    match &read_back {
        Term::FunApp(_, head, arg) => {
            assert!(matches!(arg, Term::ConstLit(_, Const::U8(1, _))));
            match head {
                Term::FunApp(_, head, arg) => {
                    assert!(matches!(head, Term::Prim(_, Prim::U8Add)));
                    assert!(matches!(arg, Term::ConstLit(_, Const::U8(2, _))));
                }
                _ => panic!("the first argument is missing"),
            }
        }
        _ => panic!("the sum was reduced"),
    }
    let mut locals: SharedEnv<ArcValue> = SharedEnv::new();
    let mut eval_env = EvalEnv::new(elim_env, &mut locals);
    assert!(matches!(
        eval_env.normalise(&scope, &read_back, FUEL),
        Ok(Term::ConstLit(_, Const::U8(3, _)))
    ));
}

#[test]
fn evaluation_leaves_no_primitive_that_could_step() {
    let scope = Scope::new();
    // `(fun x => u8_add x 1) 4` is 5, and `fun x => u8_add x 1` keeps the sum.
    let add_one = lambda(
        &scope,
        0,
        call(&scope, call(&scope, primitive(Prim::U8Add), local_at(0)), byte(1)),
    );
    let applied = call(&scope, add_one, byte(4));
    assert!(matches!(
        normal_form(&scope, &applied, FUEL),
        Ok(Term::ConstLit(_, Const::U8(5, _)))
    ));
    let add_one = lambda(
        &scope,
        0,
        call(&scope, call(&scope, primitive(Prim::U8Add), local_at(0)), byte(1)),
    );
    match normal_form(&scope, &add_one, FUEL) {
        Ok(Term::FunLit(_, _, body)) => assert!(matches!(body, Term::FunApp(_, _, _))),
        _ => panic!("the function was not read back"),
    }
}
