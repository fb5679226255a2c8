//! Checks of the small language: environments, evaluation, readback,
//! conversion and elaboration.

use std::sync::Arc;

use fathom::minimal::elaboration::Context;
use fathom::minimal::semantics::{
    eval, fun_elim, is_equal, normalise, readback, Closure, Elim, EvalError, Value, ValueEnv,
};
use fathom::minimal::surface;
use fathom::minimal::syntax::Term;
use fathom::minimal::{Env, EnvLen, GlobalVar, LocalVar};
use fathom::symbol::StringId;
use typed_arena::Arena;

const FUEL: usize = 1000;

const A: StringId = StringId(1);
const X: StringId = StringId(2);
const ID: StringId = StringId(3);

fn var<'a>(level: u16) -> Arc<Value<'a>> {
    Arc::new(Value::Stuck(GlobalVar(level), Vec::new()))
}

#[test]
fn env_len_converts_between_indices_and_levels() {
    assert_eq!(EnvLen(3).local_to_global(LocalVar(0)), Some(GlobalVar(2)));
    assert_eq!(EnvLen(3).local_to_global(LocalVar(2)), Some(GlobalVar(0)));
    assert_eq!(EnvLen(3).local_to_global(LocalVar(3)), None);
    assert_eq!(EnvLen(3).global_to_local(GlobalVar(0)), Some(LocalVar(2)));
    assert_eq!(EnvLen(3).global_to_local(GlobalVar(3)), None);
    assert_eq!(EnvLen(0).global_to_local(GlobalVar(0)), None);
    assert_eq!(EnvLen(3).next_global(), GlobalVar(3));
    assert_eq!(EnvLen(3).add_param(), EnvLen(4));
}

#[test]
fn env_is_a_stack() {
    let mut env: Env<u32> = Env::new();
    assert_eq!(env.len(), EnvLen(0));
    assert_eq!(env.get_local(LocalVar(0)), None);
    env.push_entry(10);
    env.push_entry(20);
    assert_eq!(env.len(), EnvLen(2));
    assert_eq!(env.get_global(GlobalVar(0)), Some(&10));
    assert_eq!(env.get_global(GlobalVar(2)), None);
    assert_eq!(env.get_local(LocalVar(0)), Some(&20));
    assert_eq!(env.get_local(LocalVar(1)), Some(&10));
    assert_eq!(env.get_local(LocalVar(2)), None);
    env.pop_entry();
    assert_eq!(env.get_local(LocalVar(0)), Some(&10));
    env.pop_entry();
    env.pop_entry();
    assert_eq!(env.len(), EnvLen(0));
    assert!(!env.is_full());
}

#[test]
fn evaluation_reduces_applications() {
    let arena = Arena::new();
    // (fun A => fun x => x) Type Type
    let identity = Term::FunIntro(A, arena.alloc(Term::FunIntro(X, arena.alloc(Term::Var(LocalVar(0))))));
    let applied = Term::FunElim(
        arena.alloc(Term::FunElim(arena.alloc(identity), arena.alloc(Term::Universe))),
        arena.alloc(Term::Universe),
    );
    let mut env = ValueEnv::new();
    let value = eval(&mut env, &applied, FUEL).unwrap();
    assert!(matches!(&*value, Value::Universe));
    assert!(matches!(normalise(&arena, &mut env, &applied, FUEL), Ok(Term::Universe)));
    assert_eq!(env.len(), EnvLen(0));
    assert!(matches!(eval(&mut env, &applied, 3), Err(EvalError::Limit)));
}

#[test]
fn evaluation_of_a_definition_binds_its_expression() {
    let arena = Arena::new();
    // let x : Type = Type in x
    let term = Term::Let(
        X,
        arena.alloc(Term::Universe),
        arena.alloc(Term::Universe),
        arena.alloc(Term::Var(LocalVar(0))),
    );
    let mut env = ValueEnv::new();
    env.push_entry(var(0));
    let value = eval(&mut env, &term, FUEL).unwrap();
    assert!(matches!(&*value, Value::Universe));
    assert_eq!(env.len(), EnvLen(1));
    // The variable of the environment is one binding further away in the body.
    let outer = Term::Let(
        X,
        arena.alloc(Term::Universe),
        arena.alloc(Term::Universe),
        arena.alloc(Term::Var(LocalVar(1))),
    );
    let value = eval(&mut env, &outer, FUEL).unwrap();
    assert!(matches!(&*value, Value::Stuck(GlobalVar(0), _)));
}

#[test]
fn evaluation_errors() {
    let arena = Arena::new();
    let mut env = ValueEnv::new();
    assert!(matches!(eval(&mut env, &Term::Var(LocalVar(0)), FUEL), Err(EvalError::MisboundLocal)));
    let bad = Term::FunElim(arena.alloc(Term::Universe), arena.alloc(Term::Universe));
    assert!(matches!(eval(&mut env, &bad, FUEL), Err(EvalError::InvalidFunctionElimHead)));
    assert!(matches!(eval(&mut env, &Term::Universe, 0), Err(EvalError::Limit)));
    assert!(matches!(
        fun_elim(Arc::new(Value::Universe), var(0), FUEL),
        Err(EvalError::InvalidFunctionElimHead)
    ));
    assert!(matches!(
        readback(&arena, EnvLen(0), &Value::Stuck(GlobalVar(0), Vec::new()), FUEL),
        Err(EvalError::MisboundLocal)
    ));
}

#[test]
fn a_stuck_function_collects_its_inputs() {
    let arena = Arena::new();
    let shared = var(0);
    let once = fun_elim(shared.clone(), var(1), FUEL).unwrap();
    let twice = fun_elim(once.clone(), var(2), FUEL).unwrap();
    assert!(matches!(&*shared, Value::Stuck(GlobalVar(0), elims) if elims.is_empty()));
    assert!(matches!(&*once, Value::Stuck(GlobalVar(0), elims) if elims.len() == 1));
    match &*twice {
        Value::Stuck(GlobalVar(0), elims) => match &elims[..] {
            [Elim::Fun(first), Elim::Fun(second)] => {
                assert!(matches!(&**first, Value::Stuck(GlobalVar(1), _)));
                assert!(matches!(&**second, Value::Stuck(GlobalVar(2), _)));
            }
            _ => panic!("two inputs were applied"),
        },
        _ => panic!("the application of a variable is stuck"),
    }
    // f a b reads back as the application of the variables by index.
    match readback(&arena, EnvLen(3), &twice, FUEL) {
        Ok(Term::FunElim(head, second)) => {
            assert!(matches!(second, Term::Var(LocalVar(0))));
            match head {
                Term::FunElim(head, first) => {
                    assert!(matches!(head, Term::Var(LocalVar(2))));
                    assert!(matches!(first, Term::Var(LocalVar(1))));
                }
                _ => panic!("the first input is missing"),
            }
        }
        _ => panic!("the stuck value is no application"),
    }
}

#[test]
fn readback_goes_under_binders() {
    let arena = Arena::new();
    // fun x => f x, with f the variable at level 0
    let body = Term::FunElim(arena.alloc(Term::Var(LocalVar(1))), arena.alloc(Term::Var(LocalVar(0))));
    let mut env = ValueEnv::new();
    env.push_entry(var(0));
    let closure = Closure::new(env, arena.alloc(body));
    let applied = closure.apply(var(7), FUEL).unwrap();
    assert!(matches!(&*applied, Value::Stuck(GlobalVar(0), elims) if elims.len() == 1));
    let value = Value::FunIntro(X, closure);
    match readback(&arena, EnvLen(1), &value, FUEL) {
        Ok(Term::FunIntro(name, body)) => {
            assert_eq!(name, X);
            match body {
                Term::FunElim(head, input) => {
                    assert!(matches!(head, Term::Var(LocalVar(1))));
                    assert!(matches!(input, Term::Var(LocalVar(0))));
                }
                _ => panic!("the body is no application"),
            }
        }
        _ => panic!("the function is gone"),
    }
}

#[test]
fn conversion_of_the_small_language() {
    let arena = Arena::new();
    assert_eq!(is_equal(EnvLen(0), &Arc::new(Value::Universe), &Arc::new(Value::Universe), FUEL).ok(), Some(true));
    assert_eq!(is_equal(EnvLen(2), &var(0), &var(0), FUEL).ok(), Some(true));
    assert_eq!(is_equal(EnvLen(2), &var(0), &var(1), FUEL).ok(), Some(false));
    assert_eq!(is_equal(EnvLen(2), &var(0), &Arc::new(Value::Universe), FUEL).ok(), Some(false));
    let applied = |input: u16| fun_elim(var(0), var(input), FUEL).unwrap();
    assert_eq!(is_equal(EnvLen(3), &applied(1), &applied(1), FUEL).ok(), Some(true));
    assert_eq!(is_equal(EnvLen(3), &applied(1), &applied(2), FUEL).ok(), Some(false));
    assert_eq!(is_equal(EnvLen(3), &applied(1), &var(0), FUEL).ok(), Some(false));

    // Eta: fun x => f x is equal to f.
    let body = Term::FunElim(arena.alloc(Term::Var(LocalVar(1))), arena.alloc(Term::Var(LocalVar(0))));
    let mut env = ValueEnv::new();
    env.push_entry(var(0));
    let expansion = Arc::new(Value::FunIntro(X, Closure::new(env, arena.alloc(body))));
    assert_eq!(is_equal(EnvLen(1), &expansion, &var(0), FUEL).ok(), Some(true));
    assert_eq!(is_equal(EnvLen(1), &var(0), &expansion, FUEL).ok(), Some(true));
    assert_eq!(is_equal(EnvLen(2), &expansion, &var(1), FUEL).ok(), Some(false));
    assert!(matches!(is_equal(EnvLen(1), &expansion, &var(0), 2), Err(EvalError::Limit)));

    // Function types are compared under their binder, whatever the names.
    let output = arena.alloc(Term::Var(LocalVar(0)));
    let fun_type = |name: StringId, output| {
        Arc::new(Value::FunType(name, Arc::new(Value::Universe), Closure::new(ValueEnv::new(), output)))
    };
    assert_eq!(is_equal(EnvLen(0), &fun_type(A, output), &fun_type(X, output), FUEL).ok(), Some(true));
    let universe = arena.alloc(Term::Universe);
    assert_eq!(is_equal(EnvLen(0), &fun_type(A, output), &fun_type(A, universe), FUEL).ok(), Some(false));
}

fn identity_type<'a>(arena: &'a Arena<surface::Term<'a>>) -> &'a surface::Term<'a> {
    // (A : Type) -> (x : A) -> A
    let inner = surface::Term::FunType(
        X,
        arena.alloc(surface::Term::Var(A)),
        arena.alloc(surface::Term::Var(A)),
    );
    arena.alloc(surface::Term::FunType(A, arena.alloc(surface::Term::Universe), arena.alloc(inner)))
}

fn identity<'a>(arena: &'a Arena<surface::Term<'a>>) -> &'a surface::Term<'a> {
    // fun A => fun x => x
    let inner = surface::Term::FunIntro(X, arena.alloc(surface::Term::Var(X)));
    arena.alloc(surface::Term::FunIntro(A, arena.alloc(inner)))
}

#[test]
fn elaboration_of_the_identity() {
    let surface_arena = Arena::new();
    let core_arena = Arena::new();
    let mut context = Context::new(&core_arena, FUEL);

    // let id : (A : Type) -> A -> A = fun A => fun x => x in id Type
    let body = surface::Term::FunElim(
        surface_arena.alloc(surface::Term::Var(ID)),
        surface_arena.alloc(surface::Term::Universe),
    );
    let term = surface::Term::Let(
        ID,
        identity_type(&surface_arena),
        identity(&surface_arena),
        surface_arena.alloc(body),
    );
    let (core_term, core_type) = context.synth(&term).expect("the definition is well typed");
    assert!(context.messages.is_empty());
    assert!(context.types.is_empty());
    match &core_term {
        Term::Let(name, def_type, def_expr, body_expr) => {
            assert_eq!(*name, ID);
            assert!(matches!(def_type, Term::FunType(_, _, _)));
            assert!(matches!(def_expr, Term::FunIntro(_, _)));
            match body_expr {
                Term::FunElim(head, input) => {
                    assert!(matches!(head, Term::Var(LocalVar(0))));
                    assert!(matches!(input, Term::Universe));
                }
                _ => panic!("the body is no application"),
            }
        }
        _ => panic!("the definition is gone"),
    }
    // The type of `id Type` is `Type -> Type`.
    match &*core_type {
        Value::FunType(name, input_type, _) => {
            assert_eq!(*name, X);
            assert!(matches!(&**input_type, Value::Universe));
        }
        _ => panic!("the type is no function type"),
    }
    let out_arena = Arena::new();
    match context.normalize(&out_arena, &core_term) {
        Some(Term::FunIntro(_, body)) => assert!(matches!(body, Term::Var(LocalVar(0)))),
        _ => panic!("the normal form is no function"),
    }
}

#[test]
fn elaboration_checks_against_the_expected_type() {
    let surface_arena = Arena::new();
    let core_arena = Arena::new();
    let mut context = Context::new(&core_arena, FUEL);
    let universe = Arc::new(Value::Universe);

    assert!(matches!(context.check(&surface::Term::Universe, &universe), Some(Term::Universe)));
    let expected = context
        .check(identity_type(&surface_arena), &universe)
        .and_then(|term| context.eval(&term))
        .expect("the type of the identity is a type");
    let found = context.check(identity(&surface_arena), &expected);
    match found {
        Some(Term::FunIntro(name, body)) => {
            assert_eq!(name, A);
            match body {
                Term::FunIntro(name, body) => {
                    assert_eq!(*name, X);
                    assert!(matches!(body, Term::Var(LocalVar(0))));
                }
                _ => panic!("the inner function is gone"),
            }
        }
        _ => panic!("the identity does not check"),
    }
    assert!(context.messages.is_empty());
    assert_eq!(context.is_equal(&expected, &expected), Some(true));
    assert_eq!(context.is_equal(&expected, &universe), Some(false));

    // The universe is no function.
    assert!(context.check(&surface::Term::Universe, &expected).is_none());
    assert_eq!(context.messages, vec!["error: type mismatch".to_string()]);
    assert!(context.types.is_empty());
}

#[test]
fn elaboration_reports_errors() {
    let surface_arena = Arena::new();
    let core_arena = Arena::new();
    let mut context = Context::new(&core_arena, FUEL);

    assert!(context.synth(&surface::Term::Var(X)).is_none());
    assert!(context.synth(identity(&surface_arena)).is_none());
    let applied = surface::Term::FunElim(
        surface_arena.alloc(surface::Term::Universe),
        surface_arena.alloc(surface::Term::Universe),
    );
    assert!(context.synth(&applied).is_none());
    // The parameter is out of scope after the function type.
    let escaped = surface::Term::FunElim(
        identity_type(&surface_arena),
        surface_arena.alloc(surface::Term::Var(A)),
    );
    assert!(context.synth(&escaped).is_none());
    assert_eq!(
        context.messages,
        vec![
            "error: variable out of scope".to_string(),
            "error: ambiguous function introduction".to_string(),
            "error: expected a function type".to_string(),
            "error: expected a function type".to_string(),
        ]
    );
    assert!(context.types.is_empty());
    assert_eq!(context.env.len(), EnvLen(0));
}

#[test]
fn elaboration_finds_the_most_recent_binding() {
    let surface_arena = Arena::new();
    let core_arena = Arena::new();
    let mut context = Context::new(&core_arena, FUEL);
    // let x : Type = Type in let A : Type = x in let x : Type = A in x
    let innermost = surface::Term::Let(
        X,
        surface_arena.alloc(surface::Term::Universe),
        surface_arena.alloc(surface::Term::Var(A)),
        surface_arena.alloc(surface::Term::Var(X)),
    );
    let middle = surface::Term::Let(
        A,
        surface_arena.alloc(surface::Term::Universe),
        surface_arena.alloc(surface::Term::Var(X)),
        surface_arena.alloc(innermost),
    );
    let outer = surface::Term::Let(
        X,
        surface_arena.alloc(surface::Term::Universe),
        surface_arena.alloc(surface::Term::Universe),
        surface_arena.alloc(middle),
    );
    let (term, ty) = context.synth(&outer).expect("the definitions are well typed");
    assert!(matches!(&*ty, Value::Universe));
    match term {
        Term::Let(_, _, _, Term::Let(_, _, middle_expr, Term::Let(_, _, inner_expr, body))) => {
            assert!(matches!(middle_expr, Term::Var(LocalVar(0))));
            assert!(matches!(inner_expr, Term::Var(LocalVar(0))));
            assert!(matches!(body, Term::Var(LocalVar(0))));
        }
        _ => panic!("the definitions are gone"),
    }
    let value = context.eval(&term).expect("the definitions have a value");
    assert!(matches!(&*value, Value::Universe));
}
