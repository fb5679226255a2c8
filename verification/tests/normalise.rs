//! End-to-end checks of evaluation and normalisation on small core terms.

use fathom::arena::Scope;
use fathom::core_lang::semantics::{ArcValue, ElimEnv, EvalEnv, Stop, Value};
use fathom::core_lang::{Const, Prim, Term, UIntStyle};
use fathom::env::{Index, SharedEnv, SliceEnv};
use fathom::source::Span;
use fathom::symbol::StringId;

const FUEL: usize = 1000;

/// Keeps a value for as long as the arena lives.
fn keep<'a, T>(_scope: &'a Scope<'a>, value: T) -> &'a T {
    Box::leak(Box::new(value))
}

/// Keeps a copy of the items for as long as the arena lives.
fn keep_all<'a, T: Copy>(_scope: &'a Scope<'a>, items: &[T]) -> &'a [T] {
    Vec::leak(items.to_vec())
}

fn app<'a>(scope: &'a Scope<'a>, head: Term<'a>, arg: Term<'a>) -> Term<'a> {
    Term::FunApp(Span::Empty, keep(&scope, head), keep(&scope, arg))
}

fn prim<'a>(prim: Prim) -> Term<'a> {
    Term::Prim(Span::Empty, prim)
}

fn u8_lit<'a>(value: u8) -> Term<'a> {
    Term::ConstLit(Span::Empty, Const::U8(value, UIntStyle::Decimal))
}

fn u16_lit<'a>(value: u16) -> Term<'a> {
    Term::ConstLit(Span::Empty, Const::U16(value, UIntStyle::Decimal))
}

fn var<'a>(index: u16) -> Term<'a> {
    Term::LocalVar(Span::Empty, Index(index))
}

fn normalise<'a>(scope: &'a Scope<'a>, term: &Term<'a>) -> Result<Term<'a>, Stop> {
    let items: SliceEnv<ArcValue<'a>> = SliceEnv::new();
    let metas: SliceEnv<Option<ArcValue<'a>>> = SliceEnv::new();
    let mut locals: SharedEnv<ArcValue<'a>> = SharedEnv::new();
    let mut env = EvalEnv::new(ElimEnv::new(&items, &metas), &mut locals);
    env.normalise(scope, term, FUEL)
}

fn eval<'a>(term: &Term<'a>) -> Result<ArcValue<'a>, Stop> {
    let items: SliceEnv<ArcValue<'a>> = SliceEnv::new();
    let metas: SliceEnv<Option<ArcValue<'a>>> = SliceEnv::new();
    let mut locals: SharedEnv<ArcValue<'a>> = SharedEnv::new();
    let mut env = EvalEnv::new(ElimEnv::new(&items, &metas), &mut locals);
    env.eval(term, FUEL)
}

#[test]
fn identity_applied_to_universe() {
    let scope = Scope::new();
    let inner = Term::FunLit(Span::Empty, Some(StringId(1)), keep(&scope, var(0)));
    let identity = Term::FunLit(Span::Empty, Some(StringId(0)), keep(&scope, inner));
    let term = app(
        &scope,
        app(&scope, identity, Term::Universe(Span::Empty)),
        Term::Universe(Span::Empty),
    );
    assert!(matches!(normalise(&scope, &term), Ok(Term::Universe(_))));
}

#[test]
fn addition_that_overflows_stays_stuck() {
    let scope = Scope::new();
    let term = app(&scope, app(&scope, prim(Prim::U8Add), u8_lit(255)), u8_lit(1));
    match normalise(&scope, &term) {
        Ok(Term::FunApp(_, head, arg)) => {
            assert!(matches!(arg, Term::ConstLit(_, Const::U8(1, _))));
            match head {
                Term::FunApp(_, head, arg) => {
                    assert!(matches!(head, Term::Prim(_, Prim::U8Add)));
                    assert!(matches!(arg, Term::ConstLit(_, Const::U8(255, _))));
                }
                _ => panic!("the first argument is missing"),
            }
        }
        _ => panic!("the sum is not stuck"),
    }
}

#[test]
fn addition_in_range_reduces() {
    let scope = Scope::new();
    let term = app(&scope, app(&scope, prim(Prim::U8Add), u8_lit(200)), u8_lit(55));
    assert!(matches!(
        normalise(&scope, &term),
        Ok(Term::ConstLit(_, Const::U8(255, UIntStyle::Decimal)))
    ));
}

#[test]
fn array_index_projects_the_element() {
    let scope = Scope::new();
    let elems = keep(&scope, vec![u8_lit(10), u8_lit(20), u8_lit(30), u8_lit(40)]);
    let array = Term::ArrayLit(Span::Empty, elems);
    let term = app(
        &scope,
        app(
            &scope,
            app(&scope, app(&scope, prim(Prim::Array16Index), u16_lit(4)), prim(Prim::U8Type)),
            u16_lit(2),
        ),
        array,
    );
    assert!(matches!(normalise(&scope, &term), Ok(Term::ConstLit(_, Const::U8(30, _)))));
}

#[test]
fn repr_of_format_record_is_a_dependent_record_type() {
    let scope = Scope::new();
    let labels: &[StringId] = keep_all(&scope, &[StringId(10), StringId(11)]);
    let data = app(&scope, app(&scope, prim(Prim::FormatArray16), var(0)), prim(Prim::FormatU8));
    let formats = keep(&scope, vec![prim(Prim::FormatU16Be), data]);
    let record = Term::FormatRecord(Span::Empty, labels, formats);
    let body = app(&scope, prim(Prim::FormatRepr), var(0));
    let term = Term::Let(
        Span::Empty,
        Some(StringId(0)),
        keep(&scope, prim(Prim::FormatType)),
        keep(&scope, record),
        keep(&scope, body),
    );
    match normalise(&scope, &term) {
        Ok(Term::RecordType(_, labels, types)) => {
            assert_eq!(labels, &[StringId(10), StringId(11)]);
            assert_eq!(types.len(), 2);
            assert!(matches!(types[0], Term::Prim(_, Prim::U16Type)));
            match &types[1] {
                Term::FunApp(_, head, elem) => {
                    assert!(matches!(elem, Term::Prim(_, Prim::U8Type)));
                    match head {
                        Term::FunApp(_, head, len) => {
                            assert!(matches!(head, Term::Prim(_, Prim::Array16Type)));
                            assert!(matches!(len, Term::LocalVar(_, Index(0))));
                        }
                        _ => panic!("the length is missing"),
                    }
                }
                _ => panic!("the second field is no array type"),
            }
        }
        _ => panic!("the representation is no record type"),
    }
}

#[test]
fn repr_of_conditional_format_is_the_repr_of_its_format() {
    let scope = Scope::new();
    let cond = app(&scope, app(&scope, prim(Prim::U8Eq), var(0)), u8_lit(0));
    let format = Term::FormatCond(
        Span::Empty,
        StringId(0),
        keep(&scope, prim(Prim::FormatU8)),
        keep(&scope, cond),
    );
    let term = app(&scope, prim(Prim::FormatRepr), format);
    assert!(matches!(normalise(&scope, &term), Ok(Term::Prim(_, Prim::U8Type))));
}

#[test]
fn unbound_local_variable_is_an_error() {
    let term = var(0);
    assert!(matches!(
        eval(&term),
        Err(Stop::Error(fathom::core_lang::semantics::Error::UnboundLocalVar))
    ));
}

#[test]
fn evaluation_stops_at_the_limit() {
    let scope = Scope::new();
    let term = app(&scope, app(&scope, prim(Prim::U8Add), u8_lit(1)), u8_lit(1));
    let items: SliceEnv<ArcValue> = SliceEnv::new();
    let metas: SliceEnv<Option<ArcValue>> = SliceEnv::new();
    let mut locals: SharedEnv<ArcValue> = SharedEnv::new();
    let mut env = EvalEnv::new(ElimEnv::new(&items, &metas), &mut locals);
    assert!(matches!(env.eval(&term, 1), Err(Stop::Limit)));
    assert!(matches!(env.eval(&term, 0), Err(Stop::Limit)));
    match env.eval(&term, 10) {
        Ok(value) => assert!(matches!(&*value.inner, Value::ConstLit(Const::U8(2, _)))),
        Err(_) => panic!("ten steps are enough"),
    }
}
