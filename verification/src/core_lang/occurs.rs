//! A metavariable that does not occur. Where a metavariable occurs neither
//! in a term, nor in the values around it, nor in the items and the other
//! solutions, its solution has no part in what the term evaluates to: the
//! semantics yields the same under every solution of that metavariable.

use crate::core_lang::model::{
    app_arg, apply_closure, apply_local_infos, apply_spine, array_find, array_index,
    array_repr, atomic_repr, branch_position, const_match, eval, eval_all, force, format_repr, fun_app, index_of, is_args, is_array_find, is_array_index, is_limit,
    label_position, meta_value, option_fold, prim_repr, prim_step, prim_value, quote, quote_all,
    quote_branches, quote_closure, quote_forced, quote_spine, quote_telescope, record_proj,
    resume_telescope, fresh_var, max_len, split_branches, split_telescope, ArcValueV,
    BranchesV, ClosureV, ElimV, Head, SplitBranchesV, Stop, TablesV, TelescopeV, ValueV,
};
use crate::core_lang::normal_forms::quote_elim;
use crate::core_lang::{Const, LocalInfo, Prim, TermV};
use crate::env::Level;
use crate::source::Span;
use crate::symbol::StringId;
use vstd::prelude::*;

verus! {

/// Whether the metavariable does not occur in the term.
pub open spec fn term_avoids(meta_var: Level, term: TermV) -> bool
    decreases term,
{
    match term {
        TermV::ItemVar(_, _) => true,
        TermV::LocalVar(_, _) => true,
        TermV::MetaVar(_, var) => var != meta_var,
        TermV::InsertedMeta(_, var, _) => var != meta_var,
        TermV::Ann(_, expr, ty) => term_avoids(meta_var, *expr) && term_avoids(meta_var, *ty),
        TermV::Let(_, _, def_type, def_expr, body_expr) => term_avoids(meta_var, *def_type)
            && term_avoids(meta_var, *def_expr) && term_avoids(meta_var, *body_expr),
        TermV::Universe(_) => true,
        TermV::FunType(_, _, param_type, body_type) => term_avoids(meta_var, *param_type)
            && term_avoids(meta_var, *body_type),
        TermV::FunLit(_, _, body_expr) => term_avoids(meta_var, *body_expr),
        TermV::FunApp(_, head_expr, arg_expr) => term_avoids(meta_var, *head_expr)
            && term_avoids(meta_var, *arg_expr),
        TermV::RecordType(_, _, types) => forall|i: int|
            0 <= i < types.len() ==> term_avoids(meta_var, #[trigger] types[i]),
        TermV::RecordLit(_, _, exprs) => forall|i: int|
            0 <= i < exprs.len() ==> term_avoids(meta_var, #[trigger] exprs[i]),
        TermV::RecordProj(_, head_expr, _) => term_avoids(meta_var, *head_expr),
        TermV::ArrayLit(_, exprs) => forall|i: int|
            0 <= i < exprs.len() ==> term_avoids(meta_var, #[trigger] exprs[i]),
        TermV::FormatRecord(_, _, formats) => forall|i: int|
            0 <= i < formats.len() ==> term_avoids(meta_var, #[trigger] formats[i]),
        TermV::FormatCond(_, _, format, cond) => term_avoids(meta_var, *format) && term_avoids(
            meta_var,
            *cond,
        ),
        TermV::FormatOverlap(_, _, formats) => forall|i: int|
            0 <= i < formats.len() ==> term_avoids(meta_var, #[trigger] formats[i]),
        TermV::Prim(_, _) => true,
        TermV::ConstLit(_, _) => true,
        TermV::ConstMatch(_, head_expr, branches, default_expr) => term_avoids(
            meta_var,
            *head_expr,
        ) && (forall|i: int|
            0 <= i < branches.len() ==> term_avoids(meta_var, (#[trigger] branches[i]).1))
            && match default_expr {
            Some(expr) => term_avoids(meta_var, *expr),
            None => true,
        },
    }
}

/// Whether the metavariable occurs in none of the terms.
pub open spec fn terms_avoid(meta_var: Level, terms: Seq<TermV>) -> bool {
    forall|i: int| 0 <= i < terms.len() ==> term_avoids(meta_var, #[trigger] terms[i])
}

/// Whether the metavariable occurs neither in the bodies of the branches
/// nor in the default.
pub open spec fn branches_avoid(
    meta_var: Level,
    branches: Seq<(Const, TermV)>,
    default_expr: Option<TermV>,
) -> bool {
    (forall|i: int| 0 <= i < branches.len() ==> term_avoids(meta_var, (#[trigger] branches[i]).1))
        && match default_expr {
        Some(expr) => term_avoids(meta_var, expr),
        None => true,
    }
}

/// The metavariable occurs in no part of a term that it does not occur
/// in.
pub proof fn lemma_term_parts(meta_var: Level, term: TermV)
    requires
        term_avoids(meta_var, term),
    ensures
        match term {
            TermV::RecordType(_, _, terms) => terms_avoid(meta_var, terms),
            TermV::RecordLit(_, _, terms) => terms_avoid(meta_var, terms),
            TermV::ArrayLit(_, terms) => terms_avoid(meta_var, terms),
            TermV::FormatRecord(_, _, terms) => terms_avoid(meta_var, terms),
            TermV::FormatOverlap(_, _, terms) => terms_avoid(meta_var, terms),
            TermV::ConstMatch(_, _, branches, default_expr) => branches_avoid(
                meta_var,
                branches,
                match default_expr {
                    Some(expr) => Some(*expr),
                    None => None,
                },
            ),
            _ => true,
        },
{
    match term {
        TermV::RecordType(_, _, terms) => {
            assert forall|i: int| 0 <= i < terms.len() implies term_avoids(
                meta_var,
                #[trigger] terms[i],
            ) by {
                assert(term_avoids(meta_var, term->RecordType_2[i]));
            }
        },
        TermV::RecordLit(_, _, terms) => {
            assert forall|i: int| 0 <= i < terms.len() implies term_avoids(
                meta_var,
                #[trigger] terms[i],
            ) by {
                assert(term_avoids(meta_var, term->RecordLit_2[i]));
            }
        },
        TermV::ArrayLit(_, terms) => {
            assert forall|i: int| 0 <= i < terms.len() implies term_avoids(
                meta_var,
                #[trigger] terms[i],
            ) by {
                assert(term_avoids(meta_var, term->ArrayLit_1[i]));
            }
        },
        TermV::FormatRecord(_, _, terms) => {
            assert forall|i: int| 0 <= i < terms.len() implies term_avoids(
                meta_var,
                #[trigger] terms[i],
            ) by {
                assert(term_avoids(meta_var, term->FormatRecord_2[i]));
            }
        },
        TermV::FormatOverlap(_, _, terms) => {
            assert forall|i: int| 0 <= i < terms.len() implies term_avoids(
                meta_var,
                #[trigger] terms[i],
            ) by {
                assert(term_avoids(meta_var, term->FormatOverlap_2[i]));
            }
        },
        TermV::ConstMatch(_, _, branches, _) => {
            assert forall|i: int| 0 <= i < branches.len() implies term_avoids(
                meta_var,
                (#[trigger] branches[i]).1,
            ) by {
                assert(term_avoids(meta_var, term->ConstMatch_2[i].1));
            }
        },
        _ => {},
    }
}

/// Whether the metavariable occurs nowhere in the value: at no head, and
/// in no term or environment that the value holds.
pub open spec fn avoids(meta_var: Level, value: ValueV) -> bool
    decreases value,
{
    match value {
        ValueV::Stuck(head, spine) => head != Head::MetaVar(meta_var) && forall|i: int|
            0 <= i < spine.len() ==> match #[trigger] spine[i] {
                ElimV::FunApp(arg) => avoids(meta_var, arg.value),
                ElimV::RecordProj(_) => true,
                ElimV::ConstMatch(branches) => (forall|j: int|
                    0 <= j < branches.local_exprs.len() ==> avoids(
                        meta_var,
                        (#[trigger] branches.local_exprs[j]).value,
                    )) && branches_avoid(
                    meta_var,
                    branches.pattern_branches,
                    branches.default_expr,
                ),
            },
        ValueV::Universe => true,
        ValueV::FunType(_, param_type, body_type) => avoids(meta_var, param_type.value)
            && (forall|i: int|
            0 <= i < body_type.local_exprs.len() ==> avoids(
                meta_var,
                (#[trigger] body_type.local_exprs[i]).value,
            )) && term_avoids(meta_var, body_type.term),
        ValueV::FunLit(_, body_expr) => (forall|i: int|
            0 <= i < body_expr.local_exprs.len() ==> avoids(
                meta_var,
                (#[trigger] body_expr.local_exprs[i]).value,
            )) && term_avoids(meta_var, body_expr.term),
        ValueV::RecordType(_, types) => (forall|i: int|
            0 <= i < types.local_exprs.len() ==> avoids(
                meta_var,
                (#[trigger] types.local_exprs[i]).value,
            )) && terms_avoid(meta_var, types.terms),
        ValueV::RecordLit(_, exprs) => forall|i: int|
            0 <= i < exprs.len() ==> avoids(meta_var, (#[trigger] exprs[i]).value),
        ValueV::ArrayLit(exprs) => forall|i: int|
            0 <= i < exprs.len() ==> avoids(meta_var, (#[trigger] exprs[i]).value),
        ValueV::FormatRecord(_, formats) => (forall|i: int|
            0 <= i < formats.local_exprs.len() ==> avoids(
                meta_var,
                (#[trigger] formats.local_exprs[i]).value,
            )) && terms_avoid(meta_var, formats.terms),
        ValueV::FormatCond(_, format, cond) => avoids(meta_var, format.value) && (forall|i: int|
            0 <= i < cond.local_exprs.len() ==> avoids(
                meta_var,
                (#[trigger] cond.local_exprs[i]).value,
            )) && term_avoids(meta_var, cond.term),
        ValueV::FormatOverlap(_, formats) => (forall|i: int|
            0 <= i < formats.local_exprs.len() ==> avoids(
                meta_var,
                (#[trigger] formats.local_exprs[i]).value,
            )) && terms_avoid(meta_var, formats.terms),
        ValueV::ConstLit(_) => true,
    }
}

/// Whether the metavariable occurs in none of the values.
pub open spec fn all_avoid(meta_var: Level, values: Seq<ArcValueV>) -> bool {
    forall|i: int| 0 <= i < values.len() ==> avoids(meta_var, (#[trigger] values[i]).value)
}

/// Whether the metavariable occurs neither in the environment nor in the
/// term of a closure.
pub open spec fn closure_avoids(meta_var: Level, closure: ClosureV) -> bool {
    all_avoid(meta_var, closure.local_exprs) && term_avoids(meta_var, closure.term)
}

/// Whether the metavariable occurs neither in the environment nor in the
/// terms of a telescope.
pub open spec fn telescope_avoids(meta_var: Level, telescope: TelescopeV) -> bool {
    all_avoid(meta_var, telescope.local_exprs) && terms_avoid(meta_var, telescope.terms)
}

/// Whether the metavariable occurs neither in the environment nor in the
/// terms of the branches of a match.
pub open spec fn match_avoids(meta_var: Level, branches: BranchesV) -> bool {
    all_avoid(meta_var, branches.local_exprs) && branches_avoid(
        meta_var,
        branches.pattern_branches,
        branches.default_expr,
    )
}

/// Whether the metavariable does not occur in the elimination.
pub open spec fn elim_avoids(meta_var: Level, elim: ElimV) -> bool {
    match elim {
        ElimV::FunApp(arg) => avoids(meta_var, arg.value),
        ElimV::RecordProj(_) => true,
        ElimV::ConstMatch(branches) => match_avoids(meta_var, branches),
    }
}

/// Whether the metavariable occurs in no elimination of the spine.
pub open spec fn spine_avoids(meta_var: Level, spine: Seq<ElimV>) -> bool {
    forall|i: int| 0 <= i < spine.len() ==> elim_avoids(meta_var, #[trigger] spine[i])
}

/// Whether the metavariable occurs neither in the items nor in the
/// solutions of the other metavariables.
pub open spec fn tables_avoid(meta_var: Level, tables: TablesV) -> bool {
    all_avoid(meta_var, tables.items) && forall|i: int|
        0 <= i < tables.metas.len() && i != meta_var.0 ==> match #[trigger] tables.metas[i] {
            Some(solution) => avoids(meta_var, solution.value),
            None => true,
        }
}

/// Whether two tables differ at most in the solution of the metavariable.
pub open spec fn agree(meta_var: Level, tables0: TablesV, tables1: TablesV) -> bool {
    tables0.items == tables1.items && tables0.metas.len() == tables1.metas.len() && forall|
        i: int,
    |
        0 <= i < tables0.metas.len() && i != meta_var.0 ==> #[trigger] tables0.metas[i]
            == tables1.metas[i]
}

/// Whether two results are the same, and a value that the metavariable
/// does not occur in if they are a value.
pub open spec fn is_same(
    meta_var: Level,
    result0: Result<ArcValueV, Stop>,
    result1: Result<ArcValueV, Stop>,
) -> bool {
    result1 == result0 && match result0 {
        Ok(value) => avoids(meta_var, value.value),
        Err(_) => true,
    }
}

/// A stuck value avoids the metavariable just when its head is another
/// and its spine avoids it.
pub proof fn lemma_stuck_avoids(meta_var: Level, head: Head, spine: Seq<ElimV>)
    ensures
        avoids(meta_var, ValueV::Stuck(head, spine)) <==> head != Head::MetaVar(meta_var)
            && spine_avoids(meta_var, spine),
{
    if avoids(meta_var, ValueV::Stuck(head, spine)) {
        assert forall|i: int| 0 <= i < spine.len() implies elim_avoids(
            meta_var,
            #[trigger] spine[i],
        ) by {}
    }
    if head != Head::MetaVar(meta_var) && spine_avoids(meta_var, spine) {
        assert forall|i: int| 0 <= i < spine.len() implies match #[trigger] spine[i] {
            ElimV::FunApp(arg) => avoids(meta_var, arg.value),
            ElimV::RecordProj(_) => true,
            ElimV::ConstMatch(branches) => (forall|j: int|
                0 <= j < branches.local_exprs.len() ==> avoids(
                    meta_var,
                    (#[trigger] branches.local_exprs[j]).value,
                )) && branches_avoid(
                meta_var,
                branches.pattern_branches,
                branches.default_expr,
            ),
        } by {
            assert(elim_avoids(meta_var, spine[i]));
        }
    }
}

/// A stuck value that avoids the metavariable avoids it with one more
/// elimination that does.
pub proof fn lemma_push_avoids(meta_var: Level, head: Head, spine: Seq<ElimV>, elim: ElimV)
    requires
        avoids(meta_var, ValueV::Stuck(head, spine)),
        elim_avoids(meta_var, elim),
    ensures
        avoids(meta_var, ValueV::Stuck(head, spine.push(elim))),
{
    let pushed = spine.push(elim);
    lemma_stuck_avoids(meta_var, head, spine);
    lemma_stuck_avoids(meta_var, head, pushed);
    assert forall|i: int| 0 <= i < pushed.len() implies elim_avoids(
        meta_var,
        #[trigger] pushed[i],
    ) by {
        if i < spine.len() {
            assert(pushed[i] == spine[i]);
        }
    }
}

/// An environment that avoids the metavariable avoids it with one more
/// value that does.
pub proof fn lemma_env_avoids(meta_var: Level, locals: Seq<ArcValueV>, value: ArcValueV)
    requires
        all_avoid(meta_var, locals),
        avoids(meta_var, value.value),
    ensures
        all_avoid(meta_var, locals.push(value)),
{
    let pushed = locals.push(value);
    assert forall|i: int| 0 <= i < pushed.len() implies avoids(
        meta_var,
        (#[trigger] pushed[i]).value,
    ) by {
        if i < locals.len() {
            assert(pushed[i] == locals[i]);
        }
    }
}

/// A primitive applied to values that avoid the metavariable avoids it.
pub proof fn lemma_prim_avoids(meta_var: Level, prim: Prim, args: Seq<ArcValueV>)
    requires
        all_avoid(meta_var, args),
    ensures
        avoids(meta_var, prim_value(prim, args)),
{
    let spine = Seq::new(args.len(), |i: int| ElimV::FunApp(args[i]));
    lemma_stuck_avoids(meta_var, Head::Prim(prim), spine);
    assert forall|i: int| 0 <= i < spine.len() implies elim_avoids(
        meta_var,
        #[trigger] spine[i],
    ) by {
        assert(avoids(meta_var, args[i].value));
    }
}

/// The value of another metavariable is the same under both tables, and
/// avoids the metavariable.
proof fn lemma_meta_value_avoids(
    meta_var: Level,
    tables0: TablesV,
    tables1: TablesV,
    span: Span,
    var: Level,
)
    requires
        agree(meta_var, tables0, tables1),
        tables_avoid(meta_var, tables0),
        var != meta_var,
    ensures
        is_same(meta_var, meta_value(tables0, span, var), meta_value(tables1, span, var)),
{
    if var.0 < tables0.metas.len() {
        assert(tables0.metas[var.0 as int] == tables1.metas[var.0 as int]);
        match tables0.metas[var.0 as int] {
            Some(_) => {},
            None => {
                lemma_stuck_avoids(meta_var, Head::MetaVar(var), Seq::empty());
            },
        }
    }
}

/// Evaluation yields the same under both tables, and a value that avoids
/// the metavariable: where the term and the environment avoid it.
pub proof fn lemma_eval_avoids(
    fuel: nat,
    meta_var: Level,
    tables0: TablesV,
    tables1: TablesV,
    locals: Seq<ArcValueV>,
    term: TermV,
)
    requires
        agree(meta_var, tables0, tables1),
        tables_avoid(meta_var, tables0),
        all_avoid(meta_var, locals),
        term_avoids(meta_var, term),
    ensures
        is_same(meta_var, eval(fuel, tables0, locals, term), eval(fuel, tables1, locals, term)),
    decreases fuel, 0nat,
{
    if fuel > 0 {
        let f = (fuel - 1) as nat;
        lemma_term_parts(meta_var, term);
        match term {
            TermV::ItemVar(_, var) => {
                if var.0 < tables0.items.len() {
                    assert(avoids(meta_var, tables0.items[var.0 as int].value));
                }
            },
            TermV::LocalVar(_, var) => {
                if var.0 < locals.len() {
                    assert(avoids(meta_var, locals[locals.len() - 1 - var.0].value));
                }
            },
            TermV::MetaVar(span, var) => {
                lemma_meta_value_avoids(meta_var, tables0, tables1, span, var);
            },
            TermV::InsertedMeta(span, var, infos) => {
                lemma_meta_value_avoids(meta_var, tables0, tables1, span, var);
                match meta_value(tables0, span, var) {
                    Ok(head) => {
                        lemma_apply_local_infos_avoids(
                            f,
                            meta_var,
                            tables0,
                            tables1,
                            head,
                            infos,
                            locals,
                            0,
                        );
                    },
                    Err(_) => {},
                }
            },
            TermV::Ann(_, expr, _) => {
                lemma_eval_avoids(f, meta_var, tables0, tables1, locals, *expr);
            },
            TermV::Let(_, _, _, def_expr, body_expr) => {
                lemma_eval_avoids(f, meta_var, tables0, tables1, locals, *def_expr);
                match eval(f, tables0, locals, *def_expr) {
                    Ok(def) => {
                        lemma_env_avoids(meta_var, locals, def);
                        lemma_eval_avoids(
                            f,
                            meta_var,
                            tables0,
                            tables1,
                            locals.push(def),
                            *body_expr,
                        );
                    },
                    Err(_) => {},
                }
            },
            TermV::FunType(_, _, param_type, _) => {
                lemma_eval_avoids(f, meta_var, tables0, tables1, locals, *param_type);
            },
            TermV::FunApp(_, head_expr, arg_expr) => {
                lemma_eval_avoids(f, meta_var, tables0, tables1, locals, *head_expr);
                lemma_eval_avoids(f, meta_var, tables0, tables1, locals, *arg_expr);
                match (eval(f, tables0, locals, *head_expr), eval(f, tables0, locals, *arg_expr)) {
                    (Ok(head), Ok(arg)) => {
                        lemma_fun_app_avoids(f, meta_var, tables0, tables1, head, arg);
                    },
                    _ => {},
                }
            },
            TermV::RecordLit(_, _, exprs) => {
                lemma_eval_all_avoids(f, meta_var, tables0, tables1, locals, exprs, 0);
            },
            TermV::ArrayLit(_, exprs) => {
                lemma_eval_all_avoids(f, meta_var, tables0, tables1, locals, exprs, 0);
            },
            TermV::RecordProj(_, head_expr, label) => {
                lemma_eval_avoids(f, meta_var, tables0, tables1, locals, *head_expr);
                match eval(f, tables0, locals, *head_expr) {
                    Ok(head) => {
                        lemma_record_proj_avoids(meta_var, head, label);
                    },
                    Err(_) => {},
                }
            },
            TermV::FormatCond(_, _, format, _) => {
                lemma_eval_avoids(f, meta_var, tables0, tables1, locals, *format);
            },
            TermV::Prim(_, prim) => {
                lemma_prim_avoids(meta_var, prim, Seq::empty());
            },
            TermV::ConstMatch(_, head_expr, branches, default_expr) => {
                lemma_eval_avoids(f, meta_var, tables0, tables1, locals, *head_expr);
                match eval(f, tables0, locals, *head_expr) {
                    Ok(head) => {
                        lemma_const_match_avoids(
                            f,
                            meta_var,
                            tables0,
                            tables1,
                            head,
                            BranchesV {
                                local_exprs: locals,
                                pattern_branches: branches,
                                default_expr: match default_expr {
                                    Some(expr) => Some(*expr),
                                    None => None,
                                },
                            },
                        );
                    },
                    Err(_) => {},
                }
            },
            _ => {},
        }
    }
}

proof fn lemma_eval_all_avoids(
    fuel: nat,
    meta_var: Level,
    tables0: TablesV,
    tables1: TablesV,
    locals: Seq<ArcValueV>,
    terms: Seq<TermV>,
    from: int,
)
    requires
        agree(meta_var, tables0, tables1),
        tables_avoid(meta_var, tables0),
        all_avoid(meta_var, locals),
        terms_avoid(meta_var, terms),
    ensures
        eval_all(fuel, tables1, locals, terms, from) == eval_all(
            fuel,
            tables0,
            locals,
            terms,
            from,
        ),
        eval_all(fuel, tables0, locals, terms, from) matches Ok(values) ==> all_avoid(
            meta_var,
            values,
        ),
    decreases fuel, 1 + terms.len() - from,
{
    if 0 <= from < terms.len() {
        assert(term_avoids(meta_var, terms[from]));
        lemma_eval_avoids(fuel, meta_var, tables0, tables1, locals, terms[from]);
        lemma_eval_all_avoids(fuel, meta_var, tables0, tables1, locals, terms, from + 1);
        match (
            eval(fuel, tables0, locals, terms[from]),
            eval_all(fuel, tables0, locals, terms, from + 1),
        ) {
            (Ok(value), Ok(values)) => {
                let all = seq![value] + values;
                assert forall|i: int| 0 <= i < all.len() implies avoids(
                    meta_var,
                    (#[trigger] all[i]).value,
                ) by {
                    if i > 0 {
                        assert(all[i] == values[i - 1]);
                    }
                }
            },
            _ => {},
        }
    }
}

proof fn lemma_apply_local_infos_avoids(
    fuel: nat,
    meta_var: Level,
    tables0: TablesV,
    tables1: TablesV,
    head: ArcValueV,
    infos: Seq<LocalInfo>,
    locals: Seq<ArcValueV>,
    from: int,
)
    requires
        agree(meta_var, tables0, tables1),
        tables_avoid(meta_var, tables0),
        all_avoid(meta_var, locals),
        avoids(meta_var, head.value),
    ensures
        is_same(
            meta_var,
            apply_local_infos(fuel, tables0, head, infos, locals, from),
            apply_local_infos(fuel, tables1, head, infos, locals, from),
        ),
    decreases fuel, 1 + infos.len() - from,
{
    if 0 <= from < infos.len() && from < locals.len() {
        match infos[from] {
            LocalInfo::Def => {
                lemma_apply_local_infos_avoids(
                    fuel,
                    meta_var,
                    tables0,
                    tables1,
                    head,
                    infos,
                    locals,
                    from + 1,
                );
            },
            LocalInfo::Param => {
                assert(avoids(meta_var, locals[from].value));
                lemma_fun_app_avoids(fuel, meta_var, tables0, tables1, head, locals[from]);
                match fun_app(fuel, tables0, head, locals[from]) {
                    Ok(applied) => {
                        lemma_apply_local_infos_avoids(
                            fuel,
                            meta_var,
                            tables0,
                            tables1,
                            applied,
                            infos,
                            locals,
                            from + 1,
                        );
                    },
                    Err(_) => {},
                }
            },
        }
    }
}

/// The application of a closure yields the same under both tables, and a
/// value that avoids the metavariable.
pub proof fn lemma_apply_closure_avoids(
    fuel: nat,
    meta_var: Level,
    tables0: TablesV,
    tables1: TablesV,
    closure: ClosureV,
    arg: ArcValueV,
)
    requires
        agree(meta_var, tables0, tables1),
        tables_avoid(meta_var, tables0),
        closure_avoids(meta_var, closure),
        avoids(meta_var, arg.value),
    ensures
        is_same(
            meta_var,
            apply_closure(fuel, tables0, closure, arg),
            apply_closure(fuel, tables1, closure, arg),
        ),
    decreases fuel, 0nat,
{
    if fuel > 0 {
        lemma_env_avoids(meta_var, closure.local_exprs, arg);
        lemma_eval_avoids(
            (fuel - 1) as nat,
            meta_var,
            tables0,
            tables1,
            closure.local_exprs.push(arg),
            closure.term,
        );
    }
}

/// The application of a function yields the same under both tables, and a
/// value that avoids the metavariable.
pub proof fn lemma_fun_app_avoids(
    fuel: nat,
    meta_var: Level,
    tables0: TablesV,
    tables1: TablesV,
    head: ArcValueV,
    arg: ArcValueV,
)
    requires
        agree(meta_var, tables0, tables1),
        tables_avoid(meta_var, tables0),
        avoids(meta_var, head.value),
        avoids(meta_var, arg.value),
    ensures
        is_same(
            meta_var,
            fun_app(fuel, tables0, head, arg),
            fun_app(fuel, tables1, head, arg),
        ),
    decreases fuel, 0nat,
{
    if fuel > 0 {
        let f = (fuel - 1) as nat;
        match head.value {
            ValueV::FunLit(_, body_expr) => {
                lemma_apply_closure_avoids(f, meta_var, tables0, tables1, body_expr, arg);
            },
            ValueV::Stuck(h, spine) => {
                let pushed = spine.push(ElimV::FunApp(arg));
                lemma_push_avoids(meta_var, h, spine, ElimV::FunApp(arg));
                lemma_stuck_avoids(meta_var, h, pushed);
                match h {
                    Head::Prim(prim) => {
                        lemma_prim_step_avoids(f, meta_var, tables0, tables1, prim, pushed);
                    },
                    _ => {},
                }
            },
            _ => {},
        }
    }
}

proof fn lemma_position(labels: Seq<StringId>, label: StringId, from: int)
    requires
        0 <= from,
    ensures
        label_position(labels, label, from) matches Some(i) ==> from <= i < labels.len(),
    decreases labels.len() - from,
{
    if from < labels.len() && labels[from] != label {
        lemma_position(labels, label, from + 1);
    }
}

proof fn lemma_record_proj_avoids(meta_var: Level, head: ArcValueV, label: StringId)
    requires
        avoids(meta_var, head.value),
    ensures
        record_proj(head, label) matches Ok(value) ==> avoids(meta_var, value.value),
{
    match head.value {
        ValueV::RecordLit(labels, exprs) => {
            lemma_position(labels, label, 0);
            match label_position(labels, label, 0) {
                Some(i) => {
                    if 0 <= i < exprs.len() {
                        assert(avoids(meta_var, exprs[i].value));
                    }
                },
                None => {},
            }
        },
        ValueV::Stuck(h, spine) => {
            lemma_push_avoids(meta_var, h, spine, ElimV::RecordProj(label));
        },
        _ => {},
    }
}

proof fn lemma_const_match_avoids(
    fuel: nat,
    meta_var: Level,
    tables0: TablesV,
    tables1: TablesV,
    head: ArcValueV,
    branches: BranchesV,
)
    requires
        agree(meta_var, tables0, tables1),
        tables_avoid(meta_var, tables0),
        avoids(meta_var, head.value),
        match_avoids(meta_var, branches),
    ensures
        is_same(
            meta_var,
            const_match(fuel, tables0, head, branches),
            const_match(fuel, tables1, head, branches),
        ),
    decreases fuel, 0nat,
{
    if fuel > 0 {
        let f = (fuel - 1) as nat;
        match head.value {
            ValueV::ConstLit(constant) => {
                lemma_branch_position(branches.pattern_branches, constant, 0);
                match branch_position(branches.pattern_branches, constant, 0) {
                    Some(i) => {
                        assert(term_avoids(meta_var, branches.pattern_branches[i].1));
                        lemma_eval_avoids(
                            f,
                            meta_var,
                            tables0,
                            tables1,
                            branches.local_exprs,
                            branches.pattern_branches[i].1,
                        );
                    },
                    None => {
                        match branches.default_expr {
                            Some(default_expr) => {
                                lemma_env_avoids(meta_var, branches.local_exprs, head);
                                lemma_eval_avoids(
                                    f,
                                    meta_var,
                                    tables0,
                                    tables1,
                                    branches.local_exprs.push(head),
                                    default_expr,
                                );
                            },
                            None => {},
                        }
                    },
                }
            },
            ValueV::Stuck(h, spine) => {
                lemma_push_avoids(meta_var, h, spine, ElimV::ConstMatch(branches));
            },
            _ => {},
        }
    }
}

proof fn lemma_branch_position(branches: Seq<(Const, TermV)>, constant: Const, from: int)
    requires
        0 <= from,
    ensures
        branch_position(branches, constant, from) matches Some(i) ==> from <= i < branches.len(),
    decreases branches.len() - from,
{
    if from < branches.len() && !constant.same(branches[from].0) {
        lemma_branch_position(branches, constant, from + 1);
    }
}

proof fn lemma_prim_step_avoids(
    fuel: nat,
    meta_var: Level,
    tables0: TablesV,
    tables1: TablesV,
    prim: Prim,
    spine: Seq<ElimV>,
)
    requires
        agree(meta_var, tables0, tables1),
        tables_avoid(meta_var, tables0),
        spine_avoids(meta_var, spine),
    ensures
        prim_step(fuel, tables1, prim, spine) == prim_step(fuel, tables0, prim, spine),
        prim_step(fuel, tables0, prim, spine) matches Ok(Some(reduced)) ==> avoids(
            meta_var,
            reduced.value,
        ),
    decreases fuel, 0nat,
{
    if fuel > 0 {
        let f = (fuel - 1) as nat;
        if prim == Prim::FormatRepr {
            if is_args(spine, 1) {
                assert(elim_avoids(meta_var, spine[0]));
                lemma_format_repr_avoids(f, meta_var, tables0, tables1, app_arg(spine[0])->0);
            }
        } else if prim == Prim::OptionFold {
            if is_args(spine, 5) {
                assert(elim_avoids(meta_var, spine[2]));
                assert(elim_avoids(meta_var, spine[3]));
                assert(elim_avoids(meta_var, spine[4]));
                lemma_option_fold_avoids(
                    f,
                    meta_var,
                    tables0,
                    tables1,
                    app_arg(spine[2])->0,
                    app_arg(spine[3])->0,
                    app_arg(spine[4])->0,
                );
            }
        } else if is_array_find(prim) {
            if is_args(spine, 4) {
                assert(elim_avoids(meta_var, spine[2]));
                assert(elim_avoids(meta_var, spine[3]));
                match app_arg(spine[3])->0.value {
                    ValueV::ArrayLit(elems) => {
                        lemma_array_find_avoids(
                            f,
                            meta_var,
                            tables0,
                            tables1,
                            app_arg(spine[2])->0,
                            elems,
                            0,
                        );
                    },
                    _ => {},
                }
            }
        } else if is_array_index(prim) {
            if is_args(spine, 4) {
                assert(elim_avoids(meta_var, spine[3]));
                match array_index(spine) {
                    Some(elem) => {
                        let elems = app_arg(spine[3])->0.value->ArrayLit_0;
                        let index = index_of(app_arg(spine[2])->0.value->ConstLit_0)->0;
                        assert(elem == elems[index]);
                        assert(avoids(meta_var, elems[index].value));
                    },
                    None => {},
                }
            }
        } else {
        }
    }
}

proof fn lemma_option_fold_avoids(
    fuel: nat,
    meta_var: Level,
    tables0: TablesV,
    tables1: TablesV,
    on_none: ArcValueV,
    on_some: ArcValueV,
    option: ArcValueV,
)
    requires
        agree(meta_var, tables0, tables1),
        tables_avoid(meta_var, tables0),
        avoids(meta_var, on_none.value),
        avoids(meta_var, on_some.value),
        avoids(meta_var, option.value),
    ensures
        option_fold(fuel, tables1, on_none, on_some, option) == option_fold(
            fuel,
            tables0,
            on_none,
            on_some,
            option,
        ),
        option_fold(fuel, tables0, on_none, on_some, option) matches Ok(Some(reduced))
            ==> avoids(meta_var, reduced.value),
    decreases fuel, 1nat,
{
    match option.value {
        ValueV::Stuck(Head::Prim(prim), args) => {
            if prim == Prim::OptionSome && is_args(args, 1) {
                lemma_stuck_avoids(meta_var, Head::Prim(prim), args);
                assert(elim_avoids(meta_var, args[0]));
                lemma_fun_app_avoids(
                    fuel,
                    meta_var,
                    tables0,
                    tables1,
                    on_some,
                    app_arg(args[0])->0,
                );
            }
        },
        _ => {},
    }
}

proof fn lemma_array_find_avoids(
    fuel: nat,
    meta_var: Level,
    tables0: TablesV,
    tables1: TablesV,
    pred: ArcValueV,
    elems: Seq<ArcValueV>,
    from: int,
)
    requires
        agree(meta_var, tables0, tables1),
        tables_avoid(meta_var, tables0),
        avoids(meta_var, pred.value),
        all_avoid(meta_var, elems),
    ensures
        array_find(fuel, tables1, pred, elems, from) == array_find(
            fuel,
            tables0,
            pred,
            elems,
            from,
        ),
        array_find(fuel, tables0, pred, elems, from) matches Ok(Some(found)) ==> avoids(
            meta_var,
            found.value,
        ),
    decreases fuel, 1 + elems.len() - from,
{
    if 0 <= from < elems.len() {
        assert(avoids(meta_var, elems[from].value));
        lemma_fun_app_avoids(fuel, meta_var, tables0, tables1, pred, elems[from]);
        match fun_app(fuel, tables0, pred, elems[from]) {
            Ok(found) => {
                match found.value {
                    ValueV::ConstLit(Const::Bool(true)) => {
                        let args = seq![elems[from]];
                        assert(all_avoid(meta_var, args));
                        lemma_prim_avoids(meta_var, Prim::OptionSome, args);
                    },
                    ValueV::ConstLit(Const::Bool(false)) => {
                        lemma_array_find_avoids(
                            fuel,
                            meta_var,
                            tables0,
                            tables1,
                            pred,
                            elems,
                            from + 1,
                        );
                    },
                    _ => {},
                }
            },
            Err(_) => {},
        }
    } else {
        lemma_prim_avoids(meta_var, Prim::OptionNone, Seq::empty());
    }
}

proof fn lemma_format_repr_avoids(
    fuel: nat,
    meta_var: Level,
    tables0: TablesV,
    tables1: TablesV,
    format: ArcValueV,
)
    requires
        agree(meta_var, tables0, tables1),
        tables_avoid(meta_var, tables0),
        avoids(meta_var, format.value),
    ensures
        is_same(
            meta_var,
            format_repr(fuel, tables0, format),
            format_repr(fuel, tables1, format),
        ),
    decreases fuel, 0nat,
{
    if fuel > 0 {
        let f = (fuel - 1) as nat;
        match format.value {
            ValueV::FormatCond(_, inner, _) => {
                lemma_format_repr_avoids(f, meta_var, tables0, tables1, *inner);
            },
            ValueV::Stuck(Head::Prim(prim), spine) => {
                lemma_stuck_avoids(meta_var, Head::Prim(prim), spine);
                lemma_prim_repr_avoids(f, meta_var, tables0, tables1, format, prim, spine);
            },
            ValueV::Stuck(_, _) => {
                assert(all_avoid(meta_var, seq![format]));
                lemma_prim_avoids(meta_var, Prim::FormatRepr, seq![format]);
            },
            _ => {},
        }
    }
}

proof fn lemma_prim_repr_avoids(
    fuel: nat,
    meta_var: Level,
    tables0: TablesV,
    tables1: TablesV,
    format: ArcValueV,
    prim: Prim,
    spine: Seq<ElimV>,
)
    requires
        agree(meta_var, tables0, tables1),
        tables_avoid(meta_var, tables0),
        avoids(meta_var, format.value),
        spine_avoids(meta_var, spine),
    ensures
        is_same(
            meta_var,
            prim_repr(fuel, tables0, format, prim, spine),
            prim_repr(fuel, tables1, format, prim, spine),
        ),
    decreases fuel, 1nat,
{
    assert(all_avoid(meta_var, seq![format]));
    lemma_prim_avoids(meta_var, Prim::FormatRepr, seq![format]);
    if spine.len() == 0 {
        match atomic_repr(prim) {
            Some(repr) => {
                lemma_prim_avoids(meta_var, repr, Seq::empty());
            },
            None => {},
        }
    } else if spine.len() == 1 {
        assert(elim_avoids(meta_var, spine[0]));
        match app_arg(spine[0]) {
            Some(elem) => {
                if prim == Prim::FormatRepeatUntilEnd {
                    lemma_format_repr_avoids(fuel, meta_var, tables0, tables1, elem);
                    match format_repr(fuel, tables0, elem) {
                        Ok(repr) => {
                            assert(all_avoid(meta_var, seq![repr]));
                            lemma_prim_avoids(meta_var, Prim::ArrayType, seq![repr]);
                        },
                        Err(_) => {},
                    }
                }
            },
            None => {},
        }
    } else if spine.len() == 2 {
        assert(elim_avoids(meta_var, spine[0]));
        assert(elim_avoids(meta_var, spine[1]));
        let first = app_arg(spine[0]);
        let second = app_arg(spine[1]);
        if array_repr(prim) is Some && first is Some && second is Some {
            lemma_format_repr_avoids(fuel, meta_var, tables0, tables1, second->0);
            match format_repr(fuel, tables0, second->0) {
                Ok(repr) => {
                    assert(all_avoid(meta_var, seq![first->0, repr]));
                    lemma_prim_avoids(meta_var, array_repr(prim)->0, seq![first->0, repr]);
                },
                Err(_) => {},
            }
        } else if is_limit(prim) && second is Some {
            lemma_format_repr_avoids(fuel, meta_var, tables0, tables1, second->0);
        } else if prim == Prim::FormatLink && second is Some {
            assert(all_avoid(meta_var, seq![second->0]));
            lemma_prim_avoids(meta_var, Prim::RefType, seq![second->0]);
        } else if prim == Prim::FormatDeref && first is Some {
            lemma_format_repr_avoids(fuel, meta_var, tables0, tables1, first->0);
        } else {
        }
    }
}

/// The application of a spine yields the same under both tables, and a
/// value that avoids the metavariable.
pub proof fn lemma_apply_spine_avoids(
    fuel: nat,
    meta_var: Level,
    tables0: TablesV,
    tables1: TablesV,
    head: ArcValueV,
    spine: Seq<ElimV>,
    from: int,
)
    requires
        agree(meta_var, tables0, tables1),
        tables_avoid(meta_var, tables0),
        avoids(meta_var, head.value),
        spine_avoids(meta_var, spine),
    ensures
        is_same(
            meta_var,
            apply_spine(fuel, tables0, head, spine, from),
            apply_spine(fuel, tables1, head, spine, from),
        ),
    decreases fuel, 1 + spine.len() - from,
{
    if 0 <= from < spine.len() {
        assert(elim_avoids(meta_var, spine[from]));
        match spine[from] {
            ElimV::FunApp(arg) => {
                lemma_fun_app_avoids(fuel, meta_var, tables0, tables1, head, arg);
                match fun_app(fuel, tables0, head, arg) {
                    Ok(next) => {
                        lemma_apply_spine_avoids(
                            fuel,
                            meta_var,
                            tables0,
                            tables1,
                            next,
                            spine,
                            from + 1,
                        );
                    },
                    Err(_) => {},
                }
            },
            ElimV::RecordProj(label) => {
                lemma_record_proj_avoids(meta_var, head, label);
                match record_proj(head, label) {
                    Ok(next) => {
                        lemma_apply_spine_avoids(
                            fuel,
                            meta_var,
                            tables0,
                            tables1,
                            next,
                            spine,
                            from + 1,
                        );
                    },
                    Err(_) => {},
                }
            },
            ElimV::ConstMatch(branches) => {
                lemma_const_match_avoids(fuel, meta_var, tables0, tables1, head, branches);
                match const_match(fuel, tables0, head, branches) {
                    Ok(next) => {
                        lemma_apply_spine_avoids(
                            fuel,
                            meta_var,
                            tables0,
                            tables1,
                            next,
                            spine,
                            from + 1,
                        );
                    },
                    Err(_) => {},
                }
            },
        }
    }
}

/// Forcing yields the same under both tables, and a value that avoids the
/// metavariable.
pub proof fn lemma_force_avoids(
    fuel: nat,
    meta_var: Level,
    tables0: TablesV,
    tables1: TablesV,
    value: ArcValueV,
)
    requires
        agree(meta_var, tables0, tables1),
        tables_avoid(meta_var, tables0),
        avoids(meta_var, value.value),
    ensures
        is_same(meta_var, force(fuel, tables0, value), force(fuel, tables1, value)),
    decreases fuel,
{
    if fuel > 0 {
        let f = (fuel - 1) as nat;
        match value.value {
            ValueV::Stuck(Head::MetaVar(var), spine) => {
                lemma_stuck_avoids(meta_var, Head::MetaVar(var), spine);
                if var.0 < tables0.metas.len() {
                    assert(tables0.metas[var.0 as int] == tables1.metas[var.0 as int]);
                    match tables0.metas[var.0 as int] {
                        Some(solution) => {
                            lemma_apply_spine_avoids(
                                f,
                                meta_var,
                                tables0,
                                tables1,
                                solution,
                                spine,
                                0,
                            );
                            match apply_spine(f, tables0, solution, spine, 0) {
                                Ok(next) => {
                                    lemma_force_avoids(f, meta_var, tables0, tables1, next);
                                },
                                Err(_) => {},
                            }
                        },
                        None => {},
                    }
                }
            },
            _ => {},
        }
    }
}

proof fn lemma_split_telescope_avoids(
    fuel: nat,
    meta_var: Level,
    tables0: TablesV,
    tables1: TablesV,
    telescope: TelescopeV,
)
    requires
        agree(meta_var, tables0, tables1),
        tables_avoid(meta_var, tables0),
        telescope_avoids(meta_var, telescope),
    ensures
        split_telescope(fuel, tables1, telescope) == split_telescope(fuel, tables0, telescope),
        split_telescope(fuel, tables0, telescope) matches Ok(Some((value, rest))) ==> avoids(
            meta_var,
            value.value,
        ) && telescope_avoids(meta_var, rest),
{
    if telescope.terms.len() > 0 && fuel > 0 && telescope.local_exprs.len() < max_len() {
        let f = (fuel - 1) as nat;
        assert(term_avoids(meta_var, telescope.terms[0]));
        lemma_eval_avoids(
            f,
            meta_var,
            tables0,
            tables1,
            telescope.local_exprs,
            telescope.terms[0],
        );
        let rest = telescope.terms.subrange(1, telescope.terms.len() as int);
        assert forall|i: int| 0 <= i < rest.len() implies term_avoids(
            meta_var,
            #[trigger] rest[i],
        ) by {
            assert(rest[i] == telescope.terms[i + 1]);
        }
        match eval(f, tables0, telescope.local_exprs, telescope.terms[0]) {
            Ok(value) => {
                lemma_format_repr_avoids(f, meta_var, tables0, tables1, value);
            },
            Err(_) => {},
        }
    }
}

proof fn lemma_split_branches_avoids(
    fuel: nat,
    meta_var: Level,
    tables0: TablesV,
    tables1: TablesV,
    branches: BranchesV,
)
    requires
        agree(meta_var, tables0, tables1),
        tables_avoid(meta_var, tables0),
        match_avoids(meta_var, branches),
    ensures
        split_branches(fuel, tables1, branches) == split_branches(fuel, tables0, branches),
        match split_branches(fuel, tables0, branches) {
            Ok(SplitBranchesV::Branch((_, body), next)) => avoids(meta_var, body.value)
                && match_avoids(meta_var, next),
            Ok(SplitBranchesV::Default(default_expr)) => closure_avoids(meta_var, default_expr),
            _ => true,
        },
{
    if branches.pattern_branches.len() > 0 && fuel > 0 {
        assert(term_avoids(meta_var, branches.pattern_branches[0].1));
        lemma_eval_avoids(
            (fuel - 1) as nat,
            meta_var,
            tables0,
            tables1,
            branches.local_exprs,
            branches.pattern_branches[0].1,
        );
        let rest = branches.pattern_branches.subrange(1, branches.pattern_branches.len() as int);
        assert forall|i: int| 0 <= i < rest.len() implies term_avoids(
            meta_var,
            (#[trigger] rest[i]).1,
        ) by {
            assert(rest[i] == branches.pattern_branches[i + 1]);
        }
    }
}

/// Quotation yields the same under both tables, where the value avoids the
/// metavariable.
pub proof fn lemma_quote_avoids(
    fuel: nat,
    meta_var: Level,
    tables0: TablesV,
    tables1: TablesV,
    len: nat,
    value: ArcValueV,
)
    requires
        agree(meta_var, tables0, tables1),
        tables_avoid(meta_var, tables0),
        avoids(meta_var, value.value),
    ensures
        quote(fuel, tables1, len, false, value) == quote(fuel, tables0, len, false, value),
    decreases fuel, 0nat, 0nat,
{
    if fuel > 0 {
        let f = (fuel - 1) as nat;
        lemma_force_avoids(f, meta_var, tables0, tables1, value);
        match force(f, tables0, value) {
            Ok(forced) => {
                lemma_quote_forced_avoids(f, meta_var, tables0, tables1, len, forced);
            },
            Err(_) => {},
        }
    }
}

proof fn lemma_quote_forced_avoids(
    fuel: nat,
    meta_var: Level,
    tables0: TablesV,
    tables1: TablesV,
    len: nat,
    value: ArcValueV,
)
    requires
        agree(meta_var, tables0, tables1),
        tables_avoid(meta_var, tables0),
        avoids(meta_var, value.value),
    ensures
        quote_forced(fuel, tables1, len, false, value) == quote_forced(fuel, tables0, len, false, value),
    decreases fuel, 5nat, 0nat,
{
    match value.value {
        ValueV::Stuck(head, spine) => {
            lemma_stuck_avoids(meta_var, head, spine);
            match crate::core_lang::model::quote_head(fuel, tables0, len, false, value.span, head) {
                Ok(head_term) => {
                    lemma_quote_spine_avoids(fuel, meta_var, tables0, tables1, len, value.span, head_term, spine, 0);
                },
                Err(_) => {},
            }
        },
        ValueV::FunType(_, param_type, body_type) => {
            lemma_quote_avoids(fuel, meta_var, tables0, tables1, len, *param_type);
            lemma_quote_closure_avoids(fuel, meta_var, tables0, tables1, len, body_type);
        },
        ValueV::FunLit(_, body_expr) => {
            lemma_quote_closure_avoids(fuel, meta_var, tables0, tables1, len, body_expr);
        },
        ValueV::RecordType(_, types) => {
            lemma_quote_telescope_avoids(fuel, meta_var, tables0, tables1, len, types);
        },
        ValueV::RecordLit(_, exprs) => {
            lemma_quote_all_avoids(fuel, meta_var, tables0, tables1, len, exprs, 0);
        },
        ValueV::ArrayLit(exprs) => {
            lemma_quote_all_avoids(fuel, meta_var, tables0, tables1, len, exprs, 0);
        },
        ValueV::FormatRecord(_, formats) => {
            lemma_quote_telescope_avoids(fuel, meta_var, tables0, tables1, len, formats);
        },
        ValueV::FormatCond(_, format, cond) => {
            lemma_quote_avoids(fuel, meta_var, tables0, tables1, len, *format);
            lemma_quote_closure_avoids(fuel, meta_var, tables0, tables1, len, cond);
        },
        ValueV::FormatOverlap(_, formats) => {
            lemma_quote_telescope_avoids(fuel, meta_var, tables0, tables1, len, formats);
        },
        _ => {},
    }
}

proof fn lemma_quote_spine_avoids(
    fuel: nat,
    meta_var: Level,
    tables0: TablesV,
    tables1: TablesV,
    len: nat,
    span: Span,
    head: TermV,
    spine: Seq<ElimV>,
    from: int,
)
    requires
        agree(meta_var, tables0, tables1),
        tables_avoid(meta_var, tables0),
        spine_avoids(meta_var, spine),
    ensures
        quote_spine(fuel, tables1, len, false, span, head, spine, from) == quote_spine(fuel, tables0, len, false, span, head, spine, from),
    decreases fuel, 4nat, spine.len() - from,
{
    if 0 <= from < spine.len() {
        assert(elim_avoids(meta_var, spine[from]));
        match spine[from] {
            ElimV::FunApp(arg) => {
                lemma_quote_avoids(fuel, meta_var, tables0, tables1, len, arg);
            },
            ElimV::RecordProj(_) => {},
            ElimV::ConstMatch(branches) => {
                lemma_quote_branches_avoids(fuel, meta_var, tables0, tables1, len, branches);
            },
        }
        let next = quote_elim(fuel, tables0, len, false, span, head, spine[from]);
        assert(quote_elim(fuel, tables1, len, false, span, head, spine[from]) == next);
        match next {
            Ok(next) => {
                lemma_quote_spine_avoids(fuel, meta_var, tables0, tables1, len, span, next, spine, from + 1);
            },
            Err(_) => {},
        }
    }
}

proof fn lemma_quote_branches_avoids(
    fuel: nat,
    meta_var: Level,
    tables0: TablesV,
    tables1: TablesV,
    len: nat,
    branches: BranchesV,
)
    requires
        agree(meta_var, tables0, tables1),
        tables_avoid(meta_var, tables0),
        match_avoids(meta_var, branches),
    ensures
        quote_branches(fuel, tables1, len, false, branches) == quote_branches(fuel, tables0, len, false, branches),
    decreases fuel, 2nat, branches.pattern_branches.len(),
{
    lemma_split_branches_avoids(fuel, meta_var, tables0, tables1, branches);
    match split_branches(fuel, tables0, branches) {
        Ok(SplitBranchesV::Branch((_, body), next)) => {
            lemma_quote_avoids(fuel, meta_var, tables0, tables1, len, body);
            lemma_quote_branches_avoids(fuel, meta_var, tables0, tables1, len, next);
        },
        Ok(SplitBranchesV::Default(default_expr)) => {
            lemma_quote_closure_avoids(fuel, meta_var, tables0, tables1, len, default_expr);
        },
        _ => {},
    }
}

proof fn lemma_quote_closure_avoids(
    fuel: nat,
    meta_var: Level,
    tables0: TablesV,
    tables1: TablesV,
    len: nat,
    closure: ClosureV,
)
    requires
        agree(meta_var, tables0, tables1),
        tables_avoid(meta_var, tables0),
        closure_avoids(meta_var, closure),
    ensures
        quote_closure(fuel, tables1, len, false, closure) == quote_closure(fuel, tables0, len, false, closure),
    decreases fuel, 1nat, 0nat,
{
    lemma_stuck_avoids(meta_var, Head::LocalVar(Level(len as u16)), Seq::empty());
    lemma_apply_closure_avoids(fuel, meta_var, tables0, tables1, closure, fresh_var(len));
    match apply_closure(fuel, tables0, closure, fresh_var(len)) {
        Ok(value) => {
            lemma_quote_avoids(fuel, meta_var, tables0, tables1, len + 1, value);
        },
        Err(_) => {},
    }
}

proof fn lemma_quote_telescope_avoids(
    fuel: nat,
    meta_var: Level,
    tables0: TablesV,
    tables1: TablesV,
    len: nat,
    telescope: TelescopeV,
)
    requires
        agree(meta_var, tables0, tables1),
        tables_avoid(meta_var, tables0),
        telescope_avoids(meta_var, telescope),
    ensures
        quote_telescope(fuel, tables1, len, false, telescope) == quote_telescope(fuel, tables0, len, false, telescope),
    decreases fuel, 1nat, telescope.terms.len(),
{
    lemma_split_telescope_avoids(fuel, meta_var, tables0, tables1, telescope);
    match split_telescope(fuel, tables0, telescope) {
        Ok(Some((value, rest))) => {
            lemma_quote_avoids(fuel, meta_var, tables0, tables1, len, value);
            lemma_stuck_avoids(meta_var, Head::LocalVar(Level(len as u16)), Seq::empty());
            lemma_env_avoids(meta_var, rest.local_exprs, fresh_var(len));
            lemma_quote_telescope_avoids(
                fuel,
                meta_var,
                tables0,
                tables1,
                len + 1,
                resume_telescope(rest, fresh_var(len)),
            );
        },
        _ => {},
    }
}

proof fn lemma_quote_all_avoids(
    fuel: nat,
    meta_var: Level,
    tables0: TablesV,
    tables1: TablesV,
    len: nat,
    values: Seq<ArcValueV>,
    from: int,
)
    requires
        agree(meta_var, tables0, tables1),
        tables_avoid(meta_var, tables0),
        all_avoid(meta_var, values),
    ensures
        quote_all(fuel, tables1, len, false, values, from) == quote_all(fuel, tables0, len, false, values, from),
    decreases fuel, 1nat, values.len() - from,
{
    if 0 <= from < values.len() {
        assert(avoids(meta_var, values[from].value));
        lemma_quote_avoids(fuel, meta_var, tables0, tables1, len, values[from]);
        lemma_quote_all_avoids(fuel, meta_var, tables0, tables1, len, values, from + 1);
    }
}

} // verus!
