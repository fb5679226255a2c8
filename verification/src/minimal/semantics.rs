//! The semantics of the core language, implemented through the use of
//! normalization-by-evaluation.

use crate::minimal::model;
pub use crate::minimal::model::EvalError;
use crate::minimal::model::{ClosureV, ElimV, ValueV};
use crate::minimal::syntax::{Term, TermRef, TermV};
use crate::minimal::{Env, EnvLen, GlobalVar, StringId};
use crate::shared::{share, take};
use std::sync::Arc;
use typed_arena::Arena;
use vstd::prelude::*;

verus! {

/// An arena of values of one type, of the crate `typed_arena`. Nothing is
/// known of what is inside it.
#[verifier::external_type_specification]
#[verifier::external_body]
#[verifier::reject_recursive_types(T)]
pub struct ExArena<T>(typed_arena::Arena<T>);

/// Moves a term into an arena.
///
/// Calls `typed_arena::Arena::alloc`, which is not verified here. The
/// contract claims what its documentation says: the reference that comes
/// back points to the value that was moved.
#[verifier::external_body]
pub(crate) fn place<'arena>(arena: &'arena Arena<Term<'arena>>, term: Term<'arena>) -> (placed:
    TermRef<'arena>)
    ensures
        *placed == term,
{
    arena.alloc(term)
}

/// The environment of the values of the variables in scope.
pub type ValueEnv<'arena> = Env<Arc<Value<'arena>>>;

/// Values in weak-head-normal form.
pub enum Value<'arena> {
    /// A value whose computation has stopped as a result of trying to
    /// evaluate an open term.
    Stuck(GlobalVar, Vec<Elim<'arena>>),
    /// Universes.
    Universe,
    /// Dependent function types.
    FunType(StringId, Arc<Value<'arena>>, Closure<'arena>),
    /// Function introductions.
    FunIntro(StringId, Closure<'arena>),
}

/// A pending elimination to be reduced if the head of a stuck value
/// becomes known.
pub enum Elim<'arena> {
    /// Function eliminations.
    Fun(Arc<Value<'arena>>),
}

/// A closure is a term and a captured environment that will be later
/// evaluated in the presence of an input expression.
pub struct Closure<'arena> {
    /// Captured environment.
    pub env: ValueEnv<'arena>,
    /// The body expression.
    ///
    /// This can be evaluated using the captured environment with an
    /// expression pushed onto it.
    pub body_expr: TermRef<'arena>,
}

/// The model of a value.
pub open spec fn value_view(value: &Value) -> ValueV
    decreases value,
{
    match value {
        Value::Stuck(global, elims) => ValueV::Stuck(*global, elims_view(elims@)),
        Value::Universe => ValueV::Universe,
        Value::FunType(name, input_type, output_type) => ValueV::FunType(
            *name,
            Box::new(value_view(&**input_type)),
            closure_view(output_type),
        ),
        Value::FunIntro(name, output_expr) => ValueV::FunIntro(*name, closure_view(output_expr)),
    }
}

/// The model of an elimination.
pub open spec fn elim_view(elim: &Elim) -> ElimV
    decreases elim,
{
    match elim {
        Elim::Fun(input_expr) => ElimV::Fun(value_view(&**input_expr)),
    }
}

/// The models of eliminations.
pub open spec fn elims_view(elims: Seq<Elim>) -> Seq<ElimV>
    decreases elims,
{
    Seq::new(
        elims.len(),
        |i: int|
            if 0 <= i < elims.len() {
                elim_view(&elims[i])
            } else {
                arbitrary()
            },
    )
}

/// The model of a closure.
pub open spec fn closure_view(closure: &Closure) -> ClosureV
    decreases closure,
{
    ClosureV {
        env: Seq::new(
            closure.env@.len(),
            |i: int|
                if 0 <= i < closure.env@.len() {
                    proof {
                        closure.env.lemma_entry_decreases(i);
                    }
                    value_view(&*closure.env@[i])
                } else {
                    arbitrary()
                },
        ),
        body_expr: closure.body_expr@,
    }
}

/// The models of the values in an environment, the oldest first.
pub open spec fn env_view(entries: Seq<Arc<Value>>) -> Seq<ValueV> {
    Seq::new(entries.len(), |i: int| value_view(&*entries[i]))
}

impl<'arena> View for Value<'arena> {
    type V = ValueV;

    open spec fn view(&self) -> ValueV {
        value_view(self)
    }
}

impl<'arena> View for Elim<'arena> {
    type V = ElimV;

    open spec fn view(&self) -> ElimV {
        elim_view(self)
    }
}

impl<'arena> View for Closure<'arena> {
    type V = ClosureV;

    open spec fn view(&self) -> ClosureV {
        closure_view(self)
    }
}

/// The model of a closure is made of the models of the values it captured,
/// and of its body.
pub proof fn lemma_closure_view(closure: &Closure)
    ensures
        closure@ == (ClosureV { env: env_view(closure.env@), body_expr: closure.body_expr@ }),
{
    assert(closure@.env =~= env_view(closure.env@));
}

/// The model of the result of a computation that yields a value.
pub open spec fn value_result(result: Result<Arc<Value>, EvalError>) -> Result<ValueV, EvalError> {
    match result {
        Ok(value) => Ok(value@),
        Err(error) => Err(error),
    }
}

/// The model of the result of a computation that yields a term.
pub open spec fn term_result(result: Result<Term, EvalError>) -> Result<TermV, EvalError> {
    match result {
        Ok(term) => Ok(term@),
        Err(error) => Err(error),
    }
}

impl<'arena> Clone for Elim<'arena> {
    fn clone(&self) -> (copy: Elim<'arena>)
        ensures
            copy@ == self@,
    {
        match self {
            Elim::Fun(input_expr) => Elim::Fun(share(input_expr)),
        }
    }
}

impl<'arena> Clone for Closure<'arena> {
    fn clone(&self) -> (copy: Closure<'arena>)
        ensures
            copy@ == self@,
    {
        let copy = Closure { env: self.env.clone(), body_expr: self.body_expr };
        proof {
            lemma_closure_view(self);
            lemma_closure_view(&copy);
        }
        copy
    }
}

/// A copy of eliminations that shares their values.
fn clone_elims<'arena>(elims: &Vec<Elim<'arena>>) -> (copy: Vec<Elim<'arena>>)
    ensures
        elims_view(copy@) == elims_view(elims@),
{
    let mut copy: Vec<Elim<'arena>> = Vec::new();
    let mut i: usize = 0;
    while i < elims.len()
        invariant
            i <= elims.len(),
            copy.len() == i,
            forall|k: int| 0 <= k < i ==> copy[k]@ == elims[k]@,
        decreases elims.len() - i,
    {
        copy.push(elims[i].clone());
        i = i + 1;
    }
    assert(elims_view(copy@) =~= elims_view(elims@));
    copy
}

/// A variable that is bound at the level that the next binding gets in an
/// environment of the given length.
pub(crate) fn fresh_var<'arena>(env_len: EnvLen) -> (var: Arc<Value<'arena>>)
    ensures
        var@ == model::fresh_var(env_len.0 as nat),
{
    let var = Arc::new(Value::Stuck(env_len.next_global(), Vec::new()));
    assert(elims_view(Seq::<Elim>::empty()) =~= Seq::<ElimV>::empty());
    var
}

impl<'arena> Closure<'arena> {
    pub fn new(env: ValueEnv<'arena>, body_expr: TermRef<'arena>) -> (closure: Closure<'arena>)
        ensures
            closure@ == (ClosureV { env: env_view(env@), body_expr: body_expr@ }),
    {
        let closure = Closure { env, body_expr };
        proof {
            lemma_closure_view(&closure);
        }
        closure
    }

    /// Apply an input to the closure, in at most `fuel` nested steps.
    pub fn apply(&self, input_expr: Arc<Value<'arena>>, fuel: usize) -> (result: Result<
        Arc<Value<'arena>>,
        EvalError,
    >)
        ensures
            value_result(result) == model::apply(fuel as nat, self@, input_expr@),
        decreases fuel, 1nat,
    {
        proof {
            lemma_closure_view(self);
        }
        if fuel == 0 || self.env.is_full() {
            return Err(EvalError::Limit);
        }
        let mut env = self.env.clone();
        // Add the input expression to the environment
        env.push_entry(input_expr);
        assert(env_view(env@) =~= self@.env.push(input_expr@));
        // Evaluate the body expression
        eval(&mut env, self.body_expr, fuel - 1)
    }
}

/// Fully normalise a term by evaluating it, and reading the value back.
pub fn normalise<'in_arena, 'out_arena>(
    arena: &'out_arena Arena<Term<'out_arena>>,
    env: &mut ValueEnv<'in_arena>,
    term: &Term<'in_arena>,
    fuel: usize,
) -> (result: Result<Term<'out_arena>, EvalError>)
    ensures
        final(env)@ == old(env)@,
        term_result(result) == model::normalise(fuel as nat, env_view(old(env)@), term@),
{
    let env_len = env.len();
    assert(env_len == EnvLen(env_view(env@).len() as u16));
    match eval(env, term, fuel) {
        Ok(value) => readback(arena, env_len, &*value, fuel),
        Err(error) => Err(error),
    }
}

/// Evaluate a term into a value, in at most `fuel` nested steps.
pub fn eval<'arena>(env: &mut ValueEnv<'arena>, term: &Term<'arena>, fuel: usize) -> (result: Result<
    Arc<Value<'arena>>,
    EvalError,
>)
    ensures
        final(env)@ == old(env)@,
        value_result(result) == model::eval(fuel as nat, env_view(old(env)@), term@),
    decreases fuel, 0nat,
{
    if fuel == 0 {
        return Err(EvalError::Limit);
    }
    let f = fuel - 1;
    match term {
        Term::Var(local) => match env.get_local(*local) {
            Some(value) => Ok(share(value)),
            None => Err(EvalError::MisboundLocal),
        },
        Term::Let(_, _, def_expr, body_expr) => {
            let def = match eval(env, def_expr, f) {
                Ok(def) => def,
                Err(error) => {
                    return Err(error);
                },
            };
            if env.is_full() {
                return Err(EvalError::Limit);
            }
            let ghost entries = env@;
            env.push_entry(def);
            assert(env_view(env@) =~= env_view(entries).push(def@));
            let body = eval(env, body_expr, f);
            env.pop_entry();
            assert(env@ =~= entries);
            body
        },
        Term::Universe => Ok(Arc::new(Value::Universe)),
        Term::FunType(name, input_type, output_type) => match eval(env, input_type, f) {
            Ok(input_type) => {
                let output_type = Closure::new(env.clone(), output_type);
                Ok(Arc::new(Value::FunType(*name, input_type, output_type)))
            },
            Err(error) => Err(error),
        },
        Term::FunIntro(name, output_expr) => {
            let output_expr = Closure::new(env.clone(), output_expr);
            Ok(Arc::new(Value::FunIntro(*name, output_expr)))
        },
        Term::FunElim(head_expr, input_expr) => {
            let head = match eval(env, head_expr, f) {
                Ok(head) => head,
                Err(error) => {
                    return Err(error);
                },
            };
            let input = match eval(env, input_expr, f) {
                Ok(input) => input,
                Err(error) => {
                    return Err(error);
                },
            };
            fun_elim(head, input, f)
        },
    }
}

/// Apply a function to an input, in at most `fuel` nested steps.
pub fn fun_elim<'arena>(
    head_expr: Arc<Value<'arena>>,
    input_expr: Arc<Value<'arena>>,
    fuel: usize,
) -> (result: Result<Arc<Value<'arena>>, EvalError>)
    ensures
        value_result(result) == model::fun_elim(fuel as nat, head_expr@, input_expr@),
    decreases fuel, 0nat,
{
    if fuel == 0 {
        return Err(EvalError::Limit);
    }
    match take(head_expr) {
        Ok(Value::Stuck(global, elims)) => {
            let ghost before = elims_view(elims@);
            let mut elims = elims;
            elims.push(Elim::Fun(input_expr));
            assert(elims_view(elims@) =~= before.push(ElimV::Fun(input_expr@)));
            Ok(Arc::new(Value::Stuck(global, elims)))
        },
        Ok(Value::FunIntro(_, output_expr)) => output_expr.apply(input_expr, fuel - 1),
        Ok(_) => Err(EvalError::InvalidFunctionElimHead),
        Err(shared) => match &*shared {
            Value::FunIntro(_, output_expr) => output_expr.apply(input_expr, fuel - 1),
            Value::Stuck(global, elims) => {
                let mut elims = clone_elims(elims);
                let ghost before = elims_view(elims@);
                elims.push(Elim::Fun(input_expr));
                assert(elims_view(elims@) =~= before.push(ElimV::Fun(input_expr@)));
                Ok(Arc::new(Value::Stuck(*global, elims)))
            },
            _ => Err(EvalError::InvalidFunctionElimHead),
        },
    }
}

/// Read a value back into a term, in at most `fuel` nested steps.
pub fn readback<'in_arena, 'out_arena>(
    arena: &'out_arena Arena<Term<'out_arena>>,
    env_len: EnvLen,
    value: &Value<'in_arena>,
    fuel: usize,
) -> (result: Result<Term<'out_arena>, EvalError>)
    ensures
        term_result(result) == model::readback(fuel as nat, env_len, value@),
    decreases fuel, 0nat,
{
    if fuel == 0 {
        return Err(EvalError::Limit);
    }
    let f = fuel - 1;
    match value {
        Value::Stuck(global, elims) => match env_len.global_to_local(*global) {
            Some(local) => readback_elims(arena, env_len, Term::Var(local), elims, f),
            None => Err(EvalError::MisboundLocal),
        },
        Value::Universe => Ok(Term::Universe),
        Value::FunType(name, input_type, output_type) => {
            let input_type = match readback(arena, env_len, &**input_type, f) {
                Ok(input_type) => input_type,
                Err(error) => {
                    return Err(error);
                },
            };
            match readback_closure(arena, env_len, output_type, f) {
                Ok(output_type) => Ok(
                    Term::FunType(*name, place(arena, input_type), place(arena, output_type)),
                ),
                Err(error) => Err(error),
            }
        },
        Value::FunIntro(name, output_expr) => match readback_closure(
            arena,
            env_len,
            output_expr,
            f,
        ) {
            Ok(output_expr) => Ok(Term::FunIntro(*name, place(arena, output_expr))),
            Err(error) => Err(error),
        },
    }
}

/// Reads eliminations back, around the term of what they eliminate.
fn readback_elims<'in_arena, 'out_arena>(
    arena: &'out_arena Arena<Term<'out_arena>>,
    env_len: EnvLen,
    head: Term<'out_arena>,
    elims: &Vec<Elim<'in_arena>>,
    fuel: usize,
) -> (result: Result<Term<'out_arena>, EvalError>)
    ensures
        term_result(result) == model::readback_elims(
            fuel as nat,
            env_len,
            head@,
            elims_view(elims@),
            0,
        ),
    decreases fuel, 1nat,
{
    let mut head_expr = head;
    let mut i: usize = 0;
    while i < elims.len()
        invariant
            i <= elims.len(),
            model::readback_elims(fuel as nat, env_len, head@, elims_view(elims@), 0)
                == model::readback_elims(
                fuel as nat,
                env_len,
                head_expr@,
                elims_view(elims@),
                i as int,
            ),
        decreases elims.len() - i,
    {
        head_expr = match &elims[i] {
            Elim::Fun(input_expr) => {
                let input_expr = match readback(arena, env_len, &**input_expr, fuel) {
                    Ok(input_expr) => input_expr,
                    Err(error) => {
                        return Err(error);
                    },
                };
                Term::FunElim(place(arena, head_expr), place(arena, input_expr))
            },
        };
        i = i + 1;
    }
    Ok(head_expr)
}

/// Reads the body of a closure back, under the binding of its parameter.
fn readback_closure<'in_arena, 'out_arena>(
    arena: &'out_arena Arena<Term<'out_arena>>,
    env_len: EnvLen,
    closure: &Closure<'in_arena>,
    fuel: usize,
) -> (result: Result<Term<'out_arena>, EvalError>)
    ensures
        term_result(result) == model::readback_closure(fuel as nat, env_len, closure@),
    decreases fuel, 2nat,
{
    let value = match closure.apply(fresh_var(env_len), fuel) {
        Ok(value) => value,
        Err(error) => {
            return Err(error);
        },
    };
    if env_len.0 == u16::MAX {
        return Err(EvalError::Limit);
    }
    readback(arena, env_len.add_param(), &*value, fuel)
}

/// Check that one value is computationally equal to another value, in at
/// most `fuel` nested steps.
///
/// This is sometimes referred to as 'conversion checking', or checking for
/// 'definitional equality'.
pub fn is_equal<'arena>(
    env_len: EnvLen,
    value0: &Arc<Value<'arena>>,
    value1: &Arc<Value<'arena>>,
    fuel: usize,
) -> (result: Result<bool, EvalError>)
    ensures
        result == model::is_equal(fuel as nat, env_len, value0@, value1@),
    decreases fuel, 0nat,
{
    if fuel == 0 {
        return Err(EvalError::Limit);
    }
    let f = fuel - 1;
    match (&**value0, &**value1) {
        (Value::Stuck(global0, elims0), Value::Stuck(global1, elims1)) => {
            assert(value0@ == ValueV::Stuck(*global0, elims_view(elims0@)));
            assert(value1@ == ValueV::Stuck(*global1, elims_view(elims1@)));
            if *global0 != *global1 || elims0.len() != elims1.len() {
                Ok(false)
            } else {
                is_equal_elims(env_len, elims0, elims1, f)
            }
        },
        (Value::Universe, Value::Universe) => Ok(true),
        (
            Value::FunType(name0, input_type0, output_type0),
            Value::FunType(name1, input_type1, output_type1),
        ) => {
            assert(value0@ == ValueV::FunType(*name0, Box::new(input_type0@), output_type0@));
            assert(value1@ == ValueV::FunType(*name1, Box::new(input_type1@), output_type1@));
            match is_equal(env_len, input_type0, input_type1, f) {
                Ok(true) => is_equal_closures(env_len, output_type0, output_type1, f),
                Ok(false) => Ok(false),
                Err(error) => Err(error),
            }
        },
        (Value::FunIntro(name0, output_expr0), Value::FunIntro(name1, output_expr1)) => {
            assert(value0@ == ValueV::FunIntro(*name0, output_expr0@));
            assert(value1@ == ValueV::FunIntro(*name1, output_expr1@));
            is_equal_closures(env_len, output_expr0, output_expr1, f)
        },
        // Eta-conversion
        (Value::FunIntro(name, output_expr), _) => {
            assert(value0@ == ValueV::FunIntro(*name, output_expr@));
            assert(!(value1@ is FunIntro));
            match output_expr.apply(fresh_var(env_len), f) {
                Ok(value0) => match fun_elim(share(value1), fresh_var(env_len), f) {
                    Ok(value1) => is_equal_under(env_len, &value0, &value1, f),
                    Err(error) => Err(error),
                },
                Err(error) => Err(error),
            }
        },
        (_, Value::FunIntro(name, output_expr)) => {
            assert(value1@ == ValueV::FunIntro(*name, output_expr@));
            assert(!(value0@ is FunIntro));
            match fun_elim(share(value0), fresh_var(env_len), f) {
                Ok(value0) => match output_expr.apply(fresh_var(env_len), f) {
                    Ok(value1) => is_equal_under(env_len, &value0, &value1, f),
                    Err(error) => Err(error),
                },
                Err(error) => Err(error),
            }
        },
        (_, _) => Ok(false),
    }
}

/// Compares two values under one more binding.
fn is_equal_under<'arena>(
    env_len: EnvLen,
    value0: &Arc<Value<'arena>>,
    value1: &Arc<Value<'arena>>,
    fuel: usize,
) -> (result: Result<bool, EvalError>)
    ensures
        result == model::is_equal_under(fuel as nat, env_len, value0@, value1@),
    decreases fuel, 1nat,
{
    if env_len.0 == u16::MAX {
        return Err(EvalError::Limit);
    }
    is_equal(env_len.add_param(), value0, value1, fuel)
}

/// Compares the bodies of two closures under the binding of their
/// parameter.
fn is_equal_closures<'arena>(
    env_len: EnvLen,
    closure0: &Closure<'arena>,
    closure1: &Closure<'arena>,
    fuel: usize,
) -> (result: Result<bool, EvalError>)
    ensures
        result == model::is_equal_closures(fuel as nat, env_len, closure0@, closure1@),
    decreases fuel, 2nat,
{
    match closure0.apply(fresh_var(env_len), fuel) {
        Ok(value0) => match closure1.apply(fresh_var(env_len), fuel) {
            Ok(value1) => is_equal_under(env_len, &value0, &value1, fuel),
            Err(error) => Err(error),
        },
        Err(error) => Err(error),
    }
}

/// Compares two sequences of eliminations of one length.
fn is_equal_elims<'arena>(
    env_len: EnvLen,
    elims0: &Vec<Elim<'arena>>,
    elims1: &Vec<Elim<'arena>>,
    fuel: usize,
) -> (result: Result<bool, EvalError>)
    requires
        elims0@.len() == elims1@.len(),
    ensures
        result == model::is_equal_elims(
            fuel as nat,
            env_len,
            elims_view(elims0@),
            elims_view(elims1@),
            0,
        ),
    decreases fuel, 1nat,
{
    let mut i: usize = 0;
    while i < elims0.len()
        invariant
            i <= elims0.len(),
            elims0@.len() == elims1@.len(),
            model::is_equal_elims(
                fuel as nat,
                env_len,
                elims_view(elims0@),
                elims_view(elims1@),
                0,
            ) == model::is_equal_elims(
                fuel as nat,
                env_len,
                elims_view(elims0@),
                elims_view(elims1@),
                i as int,
            ),
        decreases elims0.len() - i,
    {
        match (&elims0[i], &elims1[i]) {
            (Elim::Fun(input_expr0), Elim::Fun(input_expr1)) => match is_equal(
                env_len,
                input_expr0,
                input_expr1,
                fuel,
            ) {
                Ok(true) => {},
                Ok(false) => {
                    return Ok(false);
                },
                Err(error) => {
                    return Err(error);
                },
            },
        }
        i = i + 1;
    }
    Ok(true)
}

} // verus!
