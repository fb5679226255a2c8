//! The budget of the semantics does not change what is computed: what a
//! function of the model yields within a budget, it yields with every
//! larger budget.

use crate::core_lang::model::{
    app_arg, apply_closure, apply_local_infos, apply_spine, array_find, branch_position,
    const_match, eval, eval_all, force, force_step, format_repr, fun_app, is_args, is_array_find,
    max_len, meta_value, option_fold, prim_repr, prim_step, split_branches, split_telescope,
    ArcValueV, BranchesV, ClosureV, ElimV, Head, Stop, TablesV, TelescopeV, ValueV,
};
use crate::core_lang::{Const, LocalInfo, Prim, TermV};
use vstd::prelude::*;

verus! {

/// Whether a computation ended within its budget and within the largest
/// environment: it has a result, or it failed on an ill-typed term.
pub open spec fn within_limits<T>(result: Result<T, Stop>) -> bool {
    !(result matches Err(Stop::Limit))
}

/// One more unit of budget does not change
/// evaluation that ended within its limits.
pub proof fn lemma_eval_step(fuel: nat, tables: TablesV, locals: Seq<ArcValueV>, term: TermV)
    requires
        within_limits(eval(fuel, tables, locals, term)),
    ensures
        eval(fuel + 1, tables, locals, term) == eval(fuel, tables, locals, term),
    decreases fuel, 0nat,
{
    let f = (fuel - 1) as nat;
    match term {
        TermV::InsertedMeta(span, var, infos) => {
            match meta_value(tables, span, var) {
                Ok(head) => {
                    lemma_apply_local_infos_step(f, tables, head, infos, locals, 0);
                },
                Err(_) => {},
            }
        },
        TermV::Ann(_, expr, _) => {
            lemma_eval_step(f, tables, locals, *expr);
        },
        TermV::Let(_, _, _, def_expr, body_expr) => {
            lemma_eval_step(f, tables, locals, *def_expr);
            match eval(f, tables, locals, *def_expr) {
                Ok(def) => {
                    if locals.len() < max_len() {
                        lemma_eval_step(f, tables, locals.push(def), *body_expr);
                    }
                },
                Err(_) => {},
            }
        },
        TermV::FunType(_, _, param_type, _) => {
            lemma_eval_step(f, tables, locals, *param_type);
        },
        TermV::FunApp(_, head_expr, arg_expr) => {
            lemma_eval_step(f, tables, locals, *head_expr);
            match eval(f, tables, locals, *head_expr) {
                Ok(head) => {
                    lemma_eval_step(f, tables, locals, *arg_expr);
                    match eval(f, tables, locals, *arg_expr) {
                        Ok(arg) => {
                            lemma_fun_app_step(f, tables, head, arg);
                        },
                        Err(_) => {},
                    }
                },
                Err(_) => {},
            }
        },
        TermV::RecordLit(_, _, exprs) => {
            lemma_eval_all_step(f, tables, locals, exprs, 0);
        },
        TermV::RecordProj(_, head_expr, _) => {
            lemma_eval_step(f, tables, locals, *head_expr);
        },
        TermV::ArrayLit(_, exprs) => {
            lemma_eval_all_step(f, tables, locals, exprs, 0);
        },
        TermV::FormatCond(_, _, format, _) => {
            lemma_eval_step(f, tables, locals, *format);
        },
        TermV::ConstMatch(_, head_expr, branches, default_expr) => {
            lemma_eval_step(f, tables, locals, *head_expr);
            match eval(f, tables, locals, *head_expr) {
                Ok(head) => {
                    lemma_const_match_step(
                        f,
                        tables,
                        head,
                        BranchesV {
                            local_exprs: locals,
                            pattern_branches: branches,
                            default_expr: match default_expr {
                                Some(expr) => Some(*expr),
                                None => None,
                            },
                        },
                    );
                },
                Err(_) => {},
            }
        },
        _ => {},
    }
}

/// One more unit of budget does not change
/// the evaluation of a sequence of terms that ended within its limits.
pub proof fn lemma_eval_all_step(
    fuel: nat,
    tables: TablesV,
    locals: Seq<ArcValueV>,
    terms: Seq<TermV>,
    from: int,
)
    requires
        within_limits(eval_all(fuel, tables, locals, terms, from)),
    ensures
        eval_all(fuel + 1, tables, locals, terms, from) == eval_all(
            fuel,
            tables,
            locals,
            terms,
            from,
        ),
    decreases fuel, 1 + terms.len() - from,
{
    if 0 <= from < terms.len() {
        lemma_eval_step(fuel, tables, locals, terms[from]);
        if eval(fuel, tables, locals, terms[from]) is Ok {
            lemma_eval_all_step(fuel, tables, locals, terms, from + 1);
        }
    }
}

/// One more unit of budget does not change
/// the application of a metavariable to the parameters in scope that ended within its limits.
pub proof fn lemma_apply_local_infos_step(
    fuel: nat,
    tables: TablesV,
    head: ArcValueV,
    infos: Seq<LocalInfo>,
    locals: Seq<ArcValueV>,
    from: int,
)
    requires
        within_limits(apply_local_infos(fuel, tables, head, infos, locals, from)),
    ensures
        apply_local_infos(fuel + 1, tables, head, infos, locals, from) == apply_local_infos(
            fuel,
            tables,
            head,
            infos,
            locals,
            from,
        ),
    decreases fuel, 1 + infos.len() - from,
{
    if 0 <= from < infos.len() && from < locals.len() {
        match infos[from] {
            LocalInfo::Def => {
                lemma_apply_local_infos_step(fuel, tables, head, infos, locals, from + 1);
            },
            LocalInfo::Param => {
                lemma_fun_app_step(fuel, tables, head, locals[from]);
                match fun_app(fuel, tables, head, locals[from]) {
                    Ok(applied) => {
                        lemma_apply_local_infos_step(
                            fuel,
                            tables,
                            applied,
                            infos,
                            locals,
                            from + 1,
                        );
                    },
                    Err(_) => {},
                }
            },
        }
    }
}

/// One more unit of budget does not change
/// the application of a closure that ended within its limits.
pub proof fn lemma_apply_closure_step(fuel: nat, tables: TablesV, closure: ClosureV, arg: ArcValueV)
    requires
        within_limits(apply_closure(fuel, tables, closure, arg)),
    ensures
        apply_closure(fuel + 1, tables, closure, arg) == apply_closure(fuel, tables, closure, arg),
    decreases fuel, 0nat,
{
    lemma_eval_step((fuel - 1) as nat, tables, closure.local_exprs.push(arg), closure.term);
}

/// One more unit of budget does not change
/// the application of a function that ended within its limits.
pub proof fn lemma_fun_app_step(fuel: nat, tables: TablesV, head: ArcValueV, arg: ArcValueV)
    requires
        within_limits(fun_app(fuel, tables, head, arg)),
    ensures
        fun_app(fuel + 1, tables, head, arg) == fun_app(fuel, tables, head, arg),
    decreases fuel, 0nat,
{
    let f = (fuel - 1) as nat;
    match head.value {
        ValueV::FunLit(_, body_expr) => {
            lemma_apply_closure_step(f, tables, body_expr, arg);
        },
        ValueV::Stuck(Head::Prim(prim), spine) => {
            lemma_prim_step_step(f, tables, prim, spine.push(ElimV::FunApp(arg)));
        },
        _ => {},
    }
}

/// One more unit of budget does not change
/// a match on a constant that ended within its limits.
pub proof fn lemma_const_match_step(fuel: nat, tables: TablesV, head: ArcValueV, branches: BranchesV)
    requires
        within_limits(const_match(fuel, tables, head, branches)),
    ensures
        const_match(fuel + 1, tables, head, branches) == const_match(fuel, tables, head, branches),
    decreases fuel, 0nat,
{
    let f = (fuel - 1) as nat;
    match head.value {
        ValueV::ConstLit(constant) => {
            match branch_position(branches.pattern_branches, constant, 0) {
                Some(i) => {
                    lemma_eval_step(
                        f,
                        tables,
                        branches.local_exprs,
                        branches.pattern_branches[i].1,
                    );
                },
                None => {
                    match branches.default_expr {
                        Some(default_expr) => {
                            if branches.local_exprs.len() < max_len() {
                                lemma_eval_step(
                                    f,
                                    tables,
                                    branches.local_exprs.push(head),
                                    default_expr,
                                );
                            }
                        },
                        None => {},
                    }
                },
            }
        },
        _ => {},
    }
}

/// One more unit of budget does not change
/// the application of a spine that ended within its limits.
pub proof fn lemma_apply_spine_step(
    fuel: nat,
    tables: TablesV,
    head: ArcValueV,
    spine: Seq<ElimV>,
    from: int,
)
    requires
        within_limits(apply_spine(fuel, tables, head, spine, from)),
    ensures
        apply_spine(fuel + 1, tables, head, spine, from) == apply_spine(
            fuel,
            tables,
            head,
            spine,
            from,
        ),
    decreases fuel, 1 + spine.len() - from,
{
    if 0 <= from < spine.len() {
        match spine[from] {
            ElimV::FunApp(arg) => {
                lemma_fun_app_step(fuel, tables, head, arg);
                match fun_app(fuel, tables, head, arg) {
                    Ok(next) => {
                        lemma_apply_spine_step(fuel, tables, next, spine, from + 1);
                    },
                    Err(_) => {},
                }
            },
            ElimV::RecordProj(label) => {
                match crate::core_lang::model::record_proj(head, label) {
                    Ok(next) => {
                        lemma_apply_spine_step(fuel, tables, next, spine, from + 1);
                    },
                    Err(_) => {},
                }
            },
            ElimV::ConstMatch(branches) => {
                lemma_const_match_step(fuel, tables, head, branches);
                match const_match(fuel, tables, head, branches) {
                    Ok(next) => {
                        lemma_apply_spine_step(fuel, tables, next, spine, from + 1);
                    },
                    Err(_) => {},
                }
            },
        }
    }
}

/// One more unit of budget does not change
/// the step of a primitive that ended within its limits.
pub proof fn lemma_prim_step_step(fuel: nat, tables: TablesV, prim: Prim, spine: Seq<ElimV>)
    requires
        within_limits(prim_step(fuel, tables, prim, spine)),
    ensures
        prim_step(fuel + 1, tables, prim, spine) == prim_step(fuel, tables, prim, spine),
    decreases fuel, 0nat,
{
    let f = (fuel - 1) as nat;
    if prim == Prim::FormatRepr {
        if is_args(spine, 1) {
            lemma_format_repr_step(f, tables, app_arg(spine[0])->0);
        }
    } else if prim == Prim::OptionFold {
        if is_args(spine, 5) {
            lemma_option_fold_step(
                f,
                tables,
                app_arg(spine[2])->0,
                app_arg(spine[3])->0,
                app_arg(spine[4])->0,
            );
        }
    } else if is_array_find(prim) {
        if is_args(spine, 4) {
            match app_arg(spine[3])->0.value {
                ValueV::ArrayLit(elems) => {
                    lemma_array_find_step(f, tables, app_arg(spine[2])->0, elems, 0);
                },
                _ => {},
            }
        }
    }
}

proof fn lemma_option_fold_step(
    fuel: nat,
    tables: TablesV,
    on_none: ArcValueV,
    on_some: ArcValueV,
    option: ArcValueV,
)
    requires
        within_limits(option_fold(fuel, tables, on_none, on_some, option)),
    ensures
        option_fold(fuel + 1, tables, on_none, on_some, option) == option_fold(
            fuel,
            tables,
            on_none,
            on_some,
            option,
        ),
    decreases fuel, 1nat,
{
    match option.value {
        ValueV::Stuck(Head::Prim(prim), args) => {
            if prim == Prim::OptionSome && is_args(args, 1) {
                lemma_fun_app_step(fuel, tables, on_some, app_arg(args[0])->0);
            }
        },
        _ => {},
    }
}

proof fn lemma_array_find_step(
    fuel: nat,
    tables: TablesV,
    pred: ArcValueV,
    elems: Seq<ArcValueV>,
    from: int,
)
    requires
        within_limits(array_find(fuel, tables, pred, elems, from)),
    ensures
        array_find(fuel + 1, tables, pred, elems, from) == array_find(
            fuel,
            tables,
            pred,
            elems,
            from,
        ),
    decreases fuel, 1 + elems.len() - from,
{
    if 0 <= from < elems.len() {
        lemma_fun_app_step(fuel, tables, pred, elems[from]);
        match fun_app(fuel, tables, pred, elems[from]) {
            Ok(found) => {
                match found.value {
                    ValueV::ConstLit(Const::Bool(false)) => {
                        lemma_array_find_step(fuel, tables, pred, elems, from + 1);
                    },
                    _ => {},
                }
            },
            Err(_) => {},
        }
    }
}

/// One more unit of budget does not change
/// the representation of a format that ended within its limits.
pub proof fn lemma_format_repr_step(fuel: nat, tables: TablesV, format: ArcValueV)
    requires
        within_limits(format_repr(fuel, tables, format)),
    ensures
        format_repr(fuel + 1, tables, format) == format_repr(fuel, tables, format),
    decreases fuel, 0nat,
{
    let f = (fuel - 1) as nat;
    match format.value {
        ValueV::FormatCond(_, inner, _) => {
            lemma_format_repr_step(f, tables, *inner);
        },
        ValueV::Stuck(Head::Prim(prim), spine) => {
            lemma_prim_repr_step(f, tables, format, prim, spine);
        },
        _ => {},
    }
}

proof fn lemma_prim_repr_step(
    fuel: nat,
    tables: TablesV,
    format: ArcValueV,
    prim: Prim,
    spine: Seq<ElimV>,
)
    requires
        within_limits(prim_repr(fuel, tables, format, prim, spine)),
    ensures
        prim_repr(fuel + 1, tables, format, prim, spine) == prim_repr(
            fuel,
            tables,
            format,
            prim,
            spine,
        ),
    decreases fuel, 1nat,
{
    if spine.len() == 1 {
        match app_arg(spine[0]) {
            Some(elem) => {
                if prim == Prim::FormatRepeatUntilEnd {
                    lemma_format_repr_step(fuel, tables, elem);
                }
            },
            None => {},
        }
    } else if spine.len() == 2 {
        let first = app_arg(spine[0]);
        let second = app_arg(spine[1]);
        if crate::core_lang::model::array_repr(prim) is Some && first is Some && second is Some {
            lemma_format_repr_step(fuel, tables, second->0);
        } else if crate::core_lang::model::is_limit(prim) && second is Some {
            lemma_format_repr_step(fuel, tables, second->0);
        } else if prim == Prim::FormatLink && second is Some {
        } else if prim == Prim::FormatDeref && first is Some {
            lemma_format_repr_step(fuel, tables, first->0);
        }
    }
}

proof fn lemma_force_step_step(fuel: nat, tables: TablesV, value: ArcValueV)
    requires
        within_limits(force_step(fuel, tables, value)),
    ensures
        force_step(fuel + 1, tables, value) == force_step(fuel, tables, value),
{
    match value.value {
        ValueV::Stuck(Head::MetaVar(var), spine) => {
            if var.0 < tables.metas.len() {
                match tables.metas[var.0 as int] {
                    Some(solution) => {
                        lemma_apply_spine_step(fuel, tables, solution, spine, 0);
                    },
                    None => {},
                }
            }
        },
        _ => {},
    }
}

/// One more unit of budget does not change
/// forcing that ended within its limits.
pub proof fn lemma_force_step(fuel: nat, tables: TablesV, value: ArcValueV)
    requires
        within_limits(force(fuel, tables, value)),
    ensures
        force(fuel + 1, tables, value) == force(fuel, tables, value),
    decreases fuel,
{
    let f = (fuel - 1) as nat;
    lemma_force_step_step(f, tables, value);
    match force_step(f, tables, value) {
        Ok(Some(next)) => {
            lemma_force_step(f, tables, next);
        },
        _ => {},
    }
}

/// One more unit of budget does not change
/// the split of a telescope that ended within its limits.
pub proof fn lemma_split_telescope_step(fuel: nat, tables: TablesV, telescope: TelescopeV)
    requires
        within_limits(split_telescope(fuel, tables, telescope)),
    ensures
        split_telescope(fuel + 1, tables, telescope) == split_telescope(fuel, tables, telescope),
{
    if telescope.terms.len() > 0 {
        let f = (fuel - 1) as nat;
        lemma_eval_step(f, tables, telescope.local_exprs, telescope.terms[0]);
        match eval(f, tables, telescope.local_exprs, telescope.terms[0]) {
            Ok(value) => {
                if telescope.apply_repr {
                    lemma_format_repr_step(f, tables, value);
                }
            },
            Err(_) => {},
        }
    }
}

/// One more unit of budget does not change
/// the split of branches that ended within its limits.
pub proof fn lemma_split_branches_step(fuel: nat, tables: TablesV, branches: BranchesV)
    requires
        within_limits(split_branches(fuel, tables, branches)),
    ensures
        split_branches(fuel + 1, tables, branches) == split_branches(fuel, tables, branches),
{
    if branches.pattern_branches.len() > 0 {
        lemma_eval_step(
            (fuel - 1) as nat,
            tables,
            branches.local_exprs,
            branches.pattern_branches[0].1,
        );
    }
}

/// Evaluation does not depend on the budget once the budget suffices.
pub proof fn lemma_eval_stable(
    fuel: nat,
    more: nat,
    tables: TablesV,
    locals: Seq<ArcValueV>,
    term: TermV,
)
    requires
        within_limits(eval(fuel, tables, locals, term)),
    ensures
        eval(fuel + more, tables, locals, term) == eval(fuel, tables, locals, term),
    decreases more,
{
    if more > 0 {
        lemma_eval_stable(fuel, (more - 1) as nat, tables, locals, term);
        lemma_eval_step(fuel + (more - 1) as nat, tables, locals, term);
    }
}

/// The application of a function does not depend on the budget once the
/// budget suffices.
pub proof fn lemma_fun_app_stable(
    fuel: nat,
    more: nat,
    tables: TablesV,
    head: ArcValueV,
    arg: ArcValueV,
)
    requires
        within_limits(fun_app(fuel, tables, head, arg)),
    ensures
        fun_app(fuel + more, tables, head, arg) == fun_app(fuel, tables, head, arg),
    decreases more,
{
    if more > 0 {
        lemma_fun_app_stable(fuel, (more - 1) as nat, tables, head, arg);
        lemma_fun_app_step(fuel + (more - 1) as nat, tables, head, arg);
    }
}

/// The application of a closure does not depend on the budget once the
/// budget suffices.
pub proof fn lemma_apply_closure_stable(
    fuel: nat,
    more: nat,
    tables: TablesV,
    closure: ClosureV,
    arg: ArcValueV,
)
    requires
        within_limits(apply_closure(fuel, tables, closure, arg)),
    ensures
        apply_closure(fuel + more, tables, closure, arg) == apply_closure(
            fuel,
            tables,
            closure,
            arg,
        ),
    decreases more,
{
    if more > 0 {
        lemma_apply_closure_stable(fuel, (more - 1) as nat, tables, closure, arg);
        lemma_apply_closure_step(fuel + (more - 1) as nat, tables, closure, arg);
    }
}

/// The representation of a format does not depend on the budget once the
/// budget suffices.
pub proof fn lemma_format_repr_stable(fuel: nat, more: nat, tables: TablesV, format: ArcValueV)
    requires
        within_limits(format_repr(fuel, tables, format)),
    ensures
        format_repr(fuel + more, tables, format) == format_repr(fuel, tables, format),
    decreases more,
{
    if more > 0 {
        lemma_format_repr_stable(fuel, (more - 1) as nat, tables, format);
        lemma_format_repr_step(fuel + (more - 1) as nat, tables, format);
    }
}

/// Forcing does not depend on the budget once the budget suffices.
pub proof fn lemma_force_stable(fuel: nat, more: nat, tables: TablesV, value: ArcValueV)
    requires
        within_limits(force(fuel, tables, value)),
    ensures
        force(fuel + more, tables, value) == force(fuel, tables, value),
    decreases more,
{
    if more > 0 {
        lemma_force_stable(fuel, (more - 1) as nat, tables, value);
        lemma_force_step(fuel + (more - 1) as nat, tables, value);
    }
}

} // verus!
