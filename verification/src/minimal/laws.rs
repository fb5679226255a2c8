//! Laws of the semantics of the small language, proved of the model that
//! the contracts of the executable functions are stated over.

use crate::minimal::model::{
    apply, eval, fresh_var, fun_elim, is_equal, is_equal_closures, is_equal_elims, is_equal_under,
    max_len, ClosureV, ElimV, EvalError, ValueV,
};
use crate::minimal::syntax::TermV;
use crate::minimal::{EnvLen, LocalVar, StringId};
use vstd::prelude::*;

verus! {

/// Whether a comparison did not say no: it said yes, or it did not end.
pub open spec fn not_unequal(answer: Result<bool, EvalError>) -> bool {
    answer != Ok::<bool, EvalError>(false)
}

/// Every value is equal to itself: a comparison of a value with itself
/// never says no.
pub proof fn lemma_is_equal_reflexive(fuel: nat, len: EnvLen, value: ValueV)
    ensures
        not_unequal(is_equal(fuel, len, value, value)),
    decreases fuel, 0nat, 0nat,
{
    if fuel > 0 {
        let f = (fuel - 1) as nat;
        match value {
            ValueV::Stuck(_, elims) => {
                lemma_elims_reflexive(f, len, elims, 0);
            },
            ValueV::Universe => {},
            ValueV::FunType(_, input_type, output_type) => {
                lemma_is_equal_reflexive(f, len, *input_type);
                lemma_closures_reflexive(f, len, output_type);
            },
            ValueV::FunIntro(_, output_expr) => {
                lemma_closures_reflexive(f, len, output_expr);
            },
        }
    }
}

proof fn lemma_under_reflexive(fuel: nat, len: EnvLen, value: ValueV)
    ensures
        not_unequal(is_equal_under(fuel, len, value, value)),
    decreases fuel, 1nat, 0nat,
{
    if len.0 < max_len() {
        lemma_is_equal_reflexive(fuel, EnvLen((len.0 + 1) as u16), value);
    }
}

proof fn lemma_closures_reflexive(fuel: nat, len: EnvLen, closure: ClosureV)
    ensures
        not_unequal(is_equal_closures(fuel, len, closure, closure)),
    decreases fuel, 2nat, 0nat,
{
    match apply(fuel, closure, fresh_var(len.0 as nat)) {
        Ok(value) => {
            lemma_under_reflexive(fuel, len, value);
        },
        Err(_) => {},
    }
}

proof fn lemma_elims_reflexive(fuel: nat, len: EnvLen, elims: Seq<ElimV>, from: int)
    ensures
        not_unequal(is_equal_elims(fuel, len, elims, elims, from)),
    decreases fuel, 1nat, elims.len() - from,
{
    if 0 <= from < elims.len() {
        match elims[from] {
            ElimV::Fun(input_expr) => {
                lemma_is_equal_reflexive(fuel, len, input_expr);
            },
        }
        lemma_elims_reflexive(fuel, len, elims, from + 1);
    }
}

/// The function introduction `fun x => f x`, closed over the value `f`.
pub open spec fn eta_function(name: StringId, f: ValueV) -> ValueV {
    ValueV::FunIntro(
        name,
        ClosureV {
            env: seq![f],
            body_expr: TermV::FunElim(
                Box::new(TermV::Var(LocalVar(1))),
                Box::new(TermV::Var(LocalVar(0))),
            ),
        },
    )
}

/// The eta law of functions: a stuck value `f` is equal to `fun x => f x`.
/// A comparison of the two, in either order, never says no.
pub proof fn lemma_eta_function(fuel: nat, len: EnvLen, name: StringId, f: ValueV)
    requires
        f is Stuck,
    ensures
        not_unequal(is_equal(fuel, len, eta_function(name, f), f)),
        not_unequal(is_equal(fuel, len, f, eta_function(name, f))),
{
    if fuel > 3 {
        let f1 = (fuel - 1) as nat;
        let f3 = (fuel - 3) as nat;
        let var = fresh_var(len.0 as nat);
        let output_expr = eta_function(name, f)->FunIntro_1;
        let locals = seq![f].push(var);
        let applied = ValueV::Stuck(f->Stuck_0, f->Stuck_1.push(ElimV::Fun(var)));
        assert(fun_elim(f1, f, var) == Ok::<_, EvalError>(applied));
        assert(eval(f3, locals, TermV::Var(LocalVar(1))) == Ok::<_, EvalError>(f));
        assert(eval(f3, locals, TermV::Var(LocalVar(0))) == Ok::<_, EvalError>(var));
        assert(fun_elim(f3, f, var) == Ok::<_, EvalError>(applied));
        assert(eval((fuel - 2) as nat, locals, output_expr.body_expr) == Ok::<_, EvalError>(
            applied,
        ));
        assert(apply(f1, output_expr, var) == Ok::<_, EvalError>(applied));
        lemma_under_reflexive(f1, len, applied);
    } else if fuel > 0 {
        let f1 = (fuel - 1) as nat;
        let var = fresh_var(len.0 as nat);
        let output_expr = eta_function(name, f)->FunIntro_1;
        let locals = seq![f].push(var);
        assert(apply(f1, output_expr, var) is Err) by {
            if f1 == 2 {
                assert(eval(0, locals, TermV::Var(LocalVar(1))) is Err);
                assert(eval(1, locals, output_expr.body_expr) is Err);
            } else if f1 == 1 {
                assert(eval(0, locals, output_expr.body_expr) is Err);
            }
        }
    }
}

/// Whether a computation ended within its budget and within the largest
/// environment: it has a result, or it failed on an ill-typed term.
pub open spec fn within_limits<T>(result: Result<T, EvalError>) -> bool {
    !(result matches Err(EvalError::Limit))
}

/// Evaluation does not depend on the budget once the budget suffices: what
/// it yields within a budget, it yields with every larger budget.
pub proof fn lemma_eval_stable(fuel: nat, more: nat, env: Seq<ValueV>, term: TermV)
    requires
        within_limits(eval(fuel, env, term)),
    ensures
        eval(fuel + more, env, term) == eval(fuel, env, term),
    decreases more,
{
    if more > 0 {
        lemma_eval_stable(fuel, (more - 1) as nat, env, term);
        lemma_eval_step(fuel + (more - 1) as nat, env, term);
    }
}

proof fn lemma_eval_step(fuel: nat, env: Seq<ValueV>, term: TermV)
    requires
        within_limits(eval(fuel, env, term)),
    ensures
        eval(fuel + 1, env, term) == eval(fuel, env, term),
    decreases fuel, 0nat,
{
    let f = (fuel - 1) as nat;
    match term {
        TermV::Var(_) => {},
        TermV::Let(_, _, def_expr, body_expr) => {
            lemma_eval_step(f, env, *def_expr);
            match eval(f, env, *def_expr) {
                Ok(def) => {
                    if env.len() < max_len() {
                        lemma_eval_step(f, env.push(def), *body_expr);
                    }
                },
                Err(_) => {},
            }
        },
        TermV::Universe => {},
        TermV::FunType(_, input_type, _) => {
            lemma_eval_step(f, env, *input_type);
        },
        TermV::FunIntro(_, _) => {},
        TermV::FunElim(head_expr, input_expr) => {
            lemma_eval_step(f, env, *head_expr);
            match eval(f, env, *head_expr) {
                Ok(head) => {
                    lemma_eval_step(f, env, *input_expr);
                    match eval(f, env, *input_expr) {
                        Ok(input) => {
                            lemma_fun_elim_step(f, head, input);
                        },
                        Err(_) => {},
                    }
                },
                Err(_) => {},
            }
        },
    }
}

proof fn lemma_apply_step(fuel: nat, closure: ClosureV, input: ValueV)
    requires
        within_limits(apply(fuel, closure, input)),
    ensures
        apply(fuel + 1, closure, input) == apply(fuel, closure, input),
    decreases fuel, 0nat,
{
    lemma_eval_step((fuel - 1) as nat, closure.env.push(input), closure.body_expr);
}

proof fn lemma_fun_elim_step(fuel: nat, head: ValueV, input: ValueV)
    requires
        within_limits(fun_elim(fuel, head, input)),
    ensures
        fun_elim(fuel + 1, head, input) == fun_elim(fuel, head, input),
    decreases fuel, 0nat,
{
    match head {
        ValueV::FunIntro(_, output_expr) => {
            lemma_apply_step((fuel - 1) as nat, output_expr, input);
        },
        _ => {},
    }
}

/// Applying a closure does not depend on the budget once it suffices.
pub proof fn lemma_apply_stable(fuel: nat, more: nat, closure: ClosureV, input: ValueV)
    requires
        within_limits(apply(fuel, closure, input)),
    ensures
        apply(fuel + more, closure, input) == apply(fuel, closure, input),
    decreases more,
{
    if more > 0 {
        lemma_apply_stable(fuel, (more - 1) as nat, closure, input);
        lemma_apply_step(fuel + (more - 1) as nat, closure, input);
    }
}

/// Applying a function does not depend on the budget once it suffices.
pub proof fn lemma_fun_elim_stable(fuel: nat, more: nat, head: ValueV, input: ValueV)
    requires
        within_limits(fun_elim(fuel, head, input)),
    ensures
        fun_elim(fuel + more, head, input) == fun_elim(fuel, head, input),
    decreases more,
{
    if more > 0 {
        lemma_fun_elim_stable(fuel, (more - 1) as nat, head, input);
        lemma_fun_elim_step(fuel + (more - 1) as nat, head, input);
    }
}

} // verus!
