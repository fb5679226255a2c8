//! The mathematical model of the semantics of the small language: values
//! as trees over sequences, and evaluation, readback and conversion as
//! functions on them. Every function takes a budget, the depth to which it
//! may nest.

use crate::minimal::syntax::TermV;
use crate::minimal::{EnvLen, GlobalVar, StringId};
use vstd::prelude::*;

verus! {

/// Why a computation ended without a result.
#[derive(Clone, Copy, PartialEq, Eq, Structural, Debug)]
pub enum EvalError {
    /// A variable is not bound in the environment.
    MisboundLocal,
    /// Something that is no function was applied.
    InvalidFunctionElimHead,
    /// The budget was used up, or an environment would have grown past the
    /// largest length that an index can address.
    Limit,
}

/// The model of a value in weak head normal form.
pub ghost enum ValueV {
    Stuck(GlobalVar, Seq<ElimV>),
    Universe,
    FunType(StringId, Box<ValueV>, ClosureV),
    FunIntro(StringId, ClosureV),
}

/// The model of a pending elimination.
pub ghost enum ElimV {
    Fun(ValueV),
}

/// The model of a closure: the values of the bindings around a body, the
/// oldest first, and the body.
pub ghost struct ClosureV {
    pub env: Seq<ValueV>,
    pub body_expr: TermV,
}

/// The largest number of bindings that an environment can hold.
pub open spec fn max_len() -> nat {
    u16::MAX as nat
}

/// A fresh variable for an environment of length `len`.
pub open spec fn fresh_var(len: nat) -> ValueV {
    ValueV::Stuck(GlobalVar(len as u16), Seq::empty())
}

/// Evaluates a term in an environment that holds the values of its free
/// variables.
pub open spec fn eval(fuel: nat, env: Seq<ValueV>, term: TermV) -> Result<ValueV, EvalError>
    decreases fuel, 0nat,
{
    if fuel == 0 {
        Err(EvalError::Limit)
    } else {
        let f = (fuel - 1) as nat;
        match term {
            TermV::Var(local) => if local.0 < env.len() {
                Ok(env[env.len() - 1 - local.0])
            } else {
                Err(EvalError::MisboundLocal)
            },
            TermV::Let(_, _, def_expr, body_expr) => match eval(f, env, *def_expr) {
                Ok(def) => if env.len() < max_len() {
                    eval(f, env.push(def), *body_expr)
                } else {
                    Err(EvalError::Limit)
                },
                Err(error) => Err(error),
            },
            TermV::Universe => Ok(ValueV::Universe),
            TermV::FunType(name, input_type, output_type) => match eval(f, env, *input_type) {
                Ok(input_type) => Ok(
                    ValueV::FunType(
                        name,
                        Box::new(input_type),
                        ClosureV { env, body_expr: *output_type },
                    ),
                ),
                Err(error) => Err(error),
            },
            TermV::FunIntro(name, output_expr) => Ok(
                ValueV::FunIntro(name, ClosureV { env, body_expr: *output_expr }),
            ),
            TermV::FunElim(head_expr, input_expr) => match eval(f, env, *head_expr) {
                Ok(head) => match eval(f, env, *input_expr) {
                    Ok(input) => fun_elim(f, head, input),
                    Err(error) => Err(error),
                },
                Err(error) => Err(error),
            },
        }
    }
}

/// Applies a closure to an input: the body is evaluated with the input
/// bound as the most recent variable.
pub open spec fn apply(fuel: nat, closure: ClosureV, input: ValueV) -> Result<ValueV, EvalError>
    decreases fuel, 0nat,
{
    if fuel == 0 || closure.env.len() >= max_len() {
        Err(EvalError::Limit)
    } else {
        eval((fuel - 1) as nat, closure.env.push(input), closure.body_expr)
    }
}

/// Applies a function: a function introduction is reduced, and a stuck
/// value records the application.
pub open spec fn fun_elim(fuel: nat, head: ValueV, input: ValueV) -> Result<ValueV, EvalError>
    decreases fuel, 0nat,
{
    if fuel == 0 {
        Err(EvalError::Limit)
    } else {
        match head {
            ValueV::FunIntro(_, output_expr) => apply((fuel - 1) as nat, output_expr, input),
            ValueV::Stuck(global, elims) => Ok(
                ValueV::Stuck(global, elims.push(ElimV::Fun(input))),
            ),
            _ => Err(EvalError::InvalidFunctionElimHead),
        }
    }
}

/// Reads a value back into a term, in an environment of length `len`.
pub open spec fn readback(fuel: nat, len: EnvLen, value: ValueV) -> Result<TermV, EvalError>
    decreases fuel, 0nat, 0nat,
{
    if fuel == 0 {
        Err(EvalError::Limit)
    } else {
        let f = (fuel - 1) as nat;
        match value {
            ValueV::Stuck(global, elims) => match len.spec_global_to_local(global) {
                Some(local) => readback_elims(f, len, TermV::Var(local), elims, 0),
                None => Err(EvalError::MisboundLocal),
            },
            ValueV::Universe => Ok(TermV::Universe),
            ValueV::FunType(name, input_type, output_type) => match readback(
                f,
                len,
                *input_type,
            ) {
                Ok(input_type) => match readback_closure(f, len, output_type) {
                    Ok(output_type) => Ok(
                        TermV::FunType(name, Box::new(input_type), Box::new(output_type)),
                    ),
                    Err(error) => Err(error),
                },
                Err(error) => Err(error),
            },
            ValueV::FunIntro(name, output_expr) => match readback_closure(f, len, output_expr) {
                Ok(output_expr) => Ok(TermV::FunIntro(name, Box::new(output_expr))),
                Err(error) => Err(error),
            },
        }
    }
}

/// Reads the eliminations from position `from` on back, around the term
/// that the head and the eliminations before have given.
pub open spec fn readback_elims(
    fuel: nat,
    len: EnvLen,
    head: TermV,
    elims: Seq<ElimV>,
    from: int,
) -> Result<TermV, EvalError>
    decreases fuel, 1nat, elims.len() - from,
{
    if from < 0 || from >= elims.len() {
        Ok(head)
    } else {
        match elims[from] {
            ElimV::Fun(input) => match readback(fuel, len, input) {
                Ok(input) => readback_elims(
                    fuel,
                    len,
                    TermV::FunElim(Box::new(head), Box::new(input)),
                    elims,
                    from + 1,
                ),
                Err(error) => Err(error),
            },
        }
    }
}

/// Reads a closure back: its body is evaluated with a fresh variable, and
/// the result is read back under one more binding.
pub open spec fn readback_closure(fuel: nat, len: EnvLen, closure: ClosureV) -> Result<
    TermV,
    EvalError,
>
    decreases fuel, 1nat, 0nat,
{
    match apply(fuel, closure, fresh_var(len.0 as nat)) {
        Ok(value) => if len.0 < max_len() {
            readback(fuel, EnvLen((len.0 + 1) as u16), value)
        } else {
            Err(EvalError::Limit)
        },
        Err(error) => Err(error),
    }
}

/// Normalises a term: it is evaluated, and the value is read back.
pub open spec fn normalise(fuel: nat, env: Seq<ValueV>, term: TermV) -> Result<TermV, EvalError> {
    if env.len() > max_len() {
        Err(EvalError::Limit)
    } else {
        match eval(fuel, env, term) {
            Ok(value) => readback(fuel, EnvLen(env.len() as u16), value),
            Err(error) => Err(error),
        }
    }
}

/// The second answer where the first is yes; the first otherwise.
pub open spec fn and_also(first: Result<bool, EvalError>, second: Result<bool, EvalError>) -> Result<
    bool,
    EvalError,
> {
    match first {
        Ok(true) => second,
        Ok(false) => Ok(false),
        Err(error) => Err(error),
    }
}

/// Whether two values are computationally equal in an environment of
/// length `len`.
///
/// Two stuck values are equal when they are stuck on the same variable, and
/// their eliminations are pointwise equal. A function introduction is equal
/// to another value when its body is equal to that value applied to the
/// parameter. Otherwise two values are equal when they are of the same
/// shape and their parts are equal, the parts under a binder with a fresh
/// variable in the binder's place.
pub open spec fn is_equal(fuel: nat, len: EnvLen, value0: ValueV, value1: ValueV) -> Result<
    bool,
    EvalError,
>
    decreases fuel, 0nat, 0nat,
{
    if fuel == 0 {
        Err(EvalError::Limit)
    } else {
        let f = (fuel - 1) as nat;
        match (value0, value1) {
            (ValueV::Stuck(global0, elims0), ValueV::Stuck(global1, elims1)) => if global0
                != global1 || elims0.len() != elims1.len() {
                Ok(false)
            } else {
                is_equal_elims(f, len, elims0, elims1, 0)
            },
            (ValueV::Universe, ValueV::Universe) => Ok(true),
            (
                ValueV::FunType(_, input_type0, output_type0),
                ValueV::FunType(_, input_type1, output_type1),
            ) => and_also(
                is_equal(f, len, *input_type0, *input_type1),
                is_equal_closures(f, len, output_type0, output_type1),
            ),
            (ValueV::FunIntro(_, output_expr0), ValueV::FunIntro(_, output_expr1)) => {
                is_equal_closures(f, len, output_expr0, output_expr1)
            },
            // Eta-conversion
            (ValueV::FunIntro(_, output_expr), _) => match apply(
                f,
                output_expr,
                fresh_var(len.0 as nat),
            ) {
                Ok(value0) => match fun_elim(f, value1, fresh_var(len.0 as nat)) {
                    Ok(value1) => is_equal_under(f, len, value0, value1),
                    Err(error) => Err(error),
                },
                Err(error) => Err(error),
            },
            (_, ValueV::FunIntro(_, output_expr)) => match fun_elim(
                f,
                value0,
                fresh_var(len.0 as nat),
            ) {
                Ok(value0) => match apply(f, output_expr, fresh_var(len.0 as nat)) {
                    Ok(value1) => is_equal_under(f, len, value0, value1),
                    Err(error) => Err(error),
                },
                Err(error) => Err(error),
            },
            (_, _) => Ok(false),
        }
    }
}

/// Whether two values are equal under one more binding.
pub open spec fn is_equal_under(fuel: nat, len: EnvLen, value0: ValueV, value1: ValueV) -> Result<
    bool,
    EvalError,
>
    decreases fuel, 1nat, 0nat,
{
    if len.0 < max_len() {
        is_equal(fuel, EnvLen((len.0 + 1) as u16), value0, value1)
    } else {
        Err(EvalError::Limit)
    }
}

/// Whether two closures are equal: whether their bodies are, with the same
/// fresh variable bound in both.
pub open spec fn is_equal_closures(
    fuel: nat,
    len: EnvLen,
    closure0: ClosureV,
    closure1: ClosureV,
) -> Result<bool, EvalError>
    decreases fuel, 2nat, 0nat,
{
    match apply(fuel, closure0, fresh_var(len.0 as nat)) {
        Ok(value0) => match apply(fuel, closure1, fresh_var(len.0 as nat)) {
            Ok(value1) => is_equal_under(fuel, len, value0, value1),
            Err(error) => Err(error),
        },
        Err(error) => Err(error),
    }
}

/// Whether two sequences of eliminations of one length are pointwise equal
/// from position `from` on.
pub open spec fn is_equal_elims(
    fuel: nat,
    len: EnvLen,
    elims0: Seq<ElimV>,
    elims1: Seq<ElimV>,
    from: int,
) -> Result<bool, EvalError>
    decreases fuel, 1nat, elims0.len() - from,
{
    if from < 0 || from >= elims0.len() || from >= elims1.len() {
        Ok(true)
    } else {
        match (elims0[from], elims1[from]) {
            (ElimV::Fun(input_expr0), ElimV::Fun(input_expr1)) => and_also(
                is_equal(fuel, len, input_expr0, input_expr1),
                is_equal_elims(fuel, len, elims0, elims1, from + 1),
            ),
        }
    }
}

} // verus!
