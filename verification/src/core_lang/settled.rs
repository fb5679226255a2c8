//! Values at rest. Evaluation never leaves behind a primitive that could
//! still compute on its arguments, nor a metavariable that has a solution:
//! a value is settled when that holds of it and of every value it holds.

use crate::core_lang::model::{
    app_arg, apply_closure, apply_local_infos, array_find, array_index, array_repr, atomic_repr,
    branch_position, const_match, const_step, eval, eval_all, fold_binary, fold_unary, force,
    format_repr, fun_app, is_args, is_array_find, is_array_index, is_limit, label_position, meta_value, option_fold, prim_repr, prim_step, prim_value, record_proj, split_branches,
    split_telescope, stuck_repr, ArcValueV, BranchesV, ClosureV, ElimV, Head, SplitBranchesV,
    Stop, TablesV, TelescopeV, ValueV,
};
use crate::core_lang::{Const, LocalInfo, Prim, TermV};
use crate::source::Span;
use crate::symbol::StringId;
use vstd::prelude::*;

verus! {

/// Whether a fold over the option stays stuck: the option is neither the
/// primitive for no value nor the primitive for some value applied to one.
pub open spec fn is_stuck_option(option: ArcValueV) -> bool {
    match option.value {
        ValueV::Stuck(Head::Prim(prim), args) => !(prim == Prim::OptionSome && is_args(args, 1))
            && !(prim == Prim::OptionNone && args.len() == 0),
        _ => true,
    }
}

/// Whether the representation of a format is not known: the format is
/// stuck, and no primitive at its head with that many arguments has a
/// representation.
pub open spec fn is_stuck_repr(format: ArcValueV) -> bool {
    match format.value {
        ValueV::Stuck(Head::Prim(prim), spine) => if spine.len() == 0 {
            atomic_repr(prim) is None
        } else if spine.len() == 1 {
            !(app_arg(spine[0]) is Some && prim == Prim::FormatRepeatUntilEnd)
        } else if spine.len() == 2 {
            let first = app_arg(spine[0]);
            let second = app_arg(spine[1]);
            !(array_repr(prim) is Some && first is Some && second is Some) && !(is_limit(prim)
                && second is Some) && !(prim == Prim::FormatLink && second is Some) && !(prim
                == Prim::FormatDeref && first is Some) && !((prim == Prim::FormatSucceed || prim
                == Prim::FormatUnwrap) && first is Some)
        } else {
            true
        },
        ValueV::Stuck(_, _) => true,
        _ => false,
    }
}

/// Whether the primitive has nothing to compute on the spine. The
/// primitive that takes a format to its representation is at rest on a
/// format whose representation is not known. Nothing is asked of the
/// primitives that search an array: whether they step depends on more than
/// the shape of their arguments.
pub open spec fn is_idle(prim: Prim, spine: Seq<ElimV>) -> bool {
    if is_array_find(prim) {
        true
    } else if prim == Prim::FormatRepr {
        is_args(spine, 1) ==> is_stuck_repr(app_arg(spine[0])->0)
    } else if prim == Prim::OptionFold {
        is_args(spine, 5) ==> is_stuck_option(app_arg(spine[4])->0)
    } else if is_array_index(prim) {
        array_index(spine) is None
    } else {
        const_step(prim, spine) is None
    }
}

/// Whether the head of a stuck value is at rest on its spine: a primitive
/// has nothing to compute on any part of the spine that it was applied to
/// in turn, and a metavariable has no solution.
pub open spec fn is_settled_head(
    metas: Seq<Option<ArcValueV>>,
    head: Head,
    spine: Seq<ElimV>,
) -> bool {
    match head {
        Head::Prim(prim) => forall|k: int|
            0 < k <= spine.len() ==> is_idle(prim, #[trigger] spine.take(k)),
        Head::LocalVar(_) => true,
        Head::MetaVar(var) => var.0 < metas.len() && metas[var.0 as int] is None,
    }
}

/// Whether a value is settled: its head is at rest, and so is every value
/// in its spine, among its items and in the environments that it closes
/// over.
pub open spec fn is_settled(metas: Seq<Option<ArcValueV>>, value: ValueV) -> bool
    decreases value,
{
    match value {
        ValueV::Stuck(head, spine) => is_settled_head(metas, head, spine) && forall|i: int|
            0 <= i < spine.len() ==> match #[trigger] spine[i] {
                ElimV::FunApp(arg) => is_settled(metas, arg.value),
                ElimV::RecordProj(_) => true,
                ElimV::ConstMatch(branches) => forall|j: int|
                    0 <= j < branches.local_exprs.len() ==> is_settled(
                        metas,
                        (#[trigger] branches.local_exprs[j]).value,
                    ),
            },
        ValueV::Universe => true,
        ValueV::FunType(_, param_type, body_type) => is_settled(metas, param_type.value)
            && forall|i: int|
            0 <= i < body_type.local_exprs.len() ==> is_settled(
                metas,
                (#[trigger] body_type.local_exprs[i]).value,
            ),
        ValueV::FunLit(_, body_expr) => forall|i: int|
            0 <= i < body_expr.local_exprs.len() ==> is_settled(
                metas,
                (#[trigger] body_expr.local_exprs[i]).value,
            ),
        ValueV::RecordType(_, types) => forall|i: int|
            0 <= i < types.local_exprs.len() ==> is_settled(
                metas,
                (#[trigger] types.local_exprs[i]).value,
            ),
        ValueV::RecordLit(_, exprs) => forall|i: int|
            0 <= i < exprs.len() ==> is_settled(metas, (#[trigger] exprs[i]).value),
        ValueV::ArrayLit(exprs) => forall|i: int|
            0 <= i < exprs.len() ==> is_settled(metas, (#[trigger] exprs[i]).value),
        ValueV::FormatRecord(_, formats) => forall|i: int|
            0 <= i < formats.local_exprs.len() ==> is_settled(
                metas,
                (#[trigger] formats.local_exprs[i]).value,
            ),
        ValueV::FormatCond(_, format, cond) => is_settled(metas, format.value) && forall|i: int|
            0 <= i < cond.local_exprs.len() ==> is_settled(
                metas,
                (#[trigger] cond.local_exprs[i]).value,
            ),
        ValueV::FormatOverlap(_, formats) => forall|i: int|
            0 <= i < formats.local_exprs.len() ==> is_settled(
                metas,
                (#[trigger] formats.local_exprs[i]).value,
            ),
        ValueV::ConstLit(_) => true,
    }
}

/// Whether every value of an environment is settled.
pub open spec fn are_settled(metas: Seq<Option<ArcValueV>>, values: Seq<ArcValueV>) -> bool {
    forall|i: int| 0 <= i < values.len() ==> is_settled(metas, (#[trigger] values[i]).value)
}

/// Whether the items and the solutions of the metavariables are settled.
pub open spec fn are_settled_tables(tables: TablesV) -> bool {
    &&& are_settled(tables.metas, tables.items)
    &&& forall|i: int|
        0 <= i < tables.metas.len() ==> match #[trigger] tables.metas[i] {
            Some(solution) => is_settled(tables.metas, solution.value),
            None => true,
        }
}


/// Whether an elimination holds settled values only.
pub open spec fn is_settled_elim(metas: Seq<Option<ArcValueV>>, elim: ElimV) -> bool {
    match elim {
        ElimV::FunApp(arg) => is_settled(metas, arg.value),
        ElimV::RecordProj(_) => true,
        ElimV::ConstMatch(branches) => are_settled(metas, branches.local_exprs),
    }
}

/// Whether every elimination of a spine holds settled values only.
pub open spec fn is_settled_spine(metas: Seq<Option<ArcValueV>>, spine: Seq<ElimV>) -> bool {
    forall|i: int| 0 <= i < spine.len() ==> is_settled_elim(metas, #[trigger] spine[i])
}

/// Whether a result is a settled value, where it is a value at all.
pub open spec fn is_settled_result(
    metas: Seq<Option<ArcValueV>>,
    result: Result<ArcValueV, Stop>,
) -> bool {
    match result {
        Ok(value) => is_settled(metas, value.value),
        Err(_) => true,
    }
}

/// A primitive that computes nothing, whatever it is applied to: a type, or
/// a constructor of options.
pub open spec fn is_inert(prim: Prim) -> bool {
    prim == Prim::ArrayType || array_repr_of(prim) || atomic_repr_of(prim) || prim
        == Prim::RefType || prim == Prim::OptionSome || prim == Prim::OptionNone
}

/// Whether a primitive is the type of arrays of a given length.
pub open spec fn array_repr_of(prim: Prim) -> bool {
    prim == Prim::Array8Type || prim == Prim::Array16Type || prim == Prim::Array32Type || prim
        == Prim::Array64Type
}

/// Whether a primitive is a type that represents a format without
/// arguments.
pub open spec fn atomic_repr_of(prim: Prim) -> bool {
    prim == Prim::U8Type || prim == Prim::U16Type || prim == Prim::U32Type || prim
        == Prim::U64Type || prim == Prim::S8Type || prim == Prim::S16Type || prim
        == Prim::S32Type || prim == Prim::S64Type || prim == Prim::F32Type || prim
        == Prim::F64Type || prim == Prim::PosType || prim == Prim::VoidType || prim
        == Prim::ReportedError
}

/// A stuck value is settled just when its head is at rest on its spine and
/// the spine holds settled values.
pub proof fn lemma_stuck_settled(metas: Seq<Option<ArcValueV>>, head: Head, spine: Seq<ElimV>)
    ensures
        is_settled(metas, ValueV::Stuck(head, spine)) <==> is_settled_head(metas, head, spine)
            && is_settled_spine(metas, spine),
{
    if is_settled(metas, ValueV::Stuck(head, spine)) {
        assert forall|i: int| 0 <= i < spine.len() implies is_settled_elim(
            metas,
            #[trigger] spine[i],
        ) by {}
    }
    if is_settled_head(metas, head, spine) && is_settled_spine(metas, spine) {
        assert forall|i: int| 0 <= i < spine.len() implies match #[trigger] spine[i] {
            ElimV::FunApp(arg) => is_settled(metas, arg.value),
            ElimV::RecordProj(_) => true,
            ElimV::ConstMatch(branches) => forall|j: int|
                0 <= j < branches.local_exprs.len() ==> is_settled(
                    metas,
                    (#[trigger] branches.local_exprs[j]).value,
                ),
        } by {
            assert(is_settled_elim(metas, spine[i]));
        }
    }
}

/// A settled stuck value stays settled with one more elimination, where
/// the elimination is settled and a primitive at the head has nothing to
/// compute on the longer spine.
pub proof fn lemma_push_settled(
    metas: Seq<Option<ArcValueV>>,
    head: Head,
    spine: Seq<ElimV>,
    elim: ElimV,
)
    requires
        is_settled(metas, ValueV::Stuck(head, spine)),
        is_settled_elim(metas, elim),
        head matches Head::Prim(prim) ==> is_idle(prim, spine.push(elim)),
    ensures
        is_settled(metas, ValueV::Stuck(head, spine.push(elim))),
{
    let pushed = spine.push(elim);
    lemma_stuck_settled(metas, head, spine);
    lemma_stuck_settled(metas, head, pushed);
    assert forall|i: int| 0 <= i < pushed.len() implies is_settled_elim(
        metas,
        #[trigger] pushed[i],
    ) by {
        if i < spine.len() {
            assert(pushed[i] == spine[i]);
        }
    }
    match head {
        Head::Prim(prim) => {
            assert forall|k: int| 0 < k <= pushed.len() implies is_idle(
                prim,
                #[trigger] pushed.take(k),
            ) by {
                if k <= spine.len() {
                    assert(pushed.take(k) =~= spine.take(k));
                } else {
                    assert(pushed.take(k) =~= pushed);
                }
            }
        },
        _ => {},
    }
}

/// A primitive has nothing to compute on a spine that ends with a
/// projection or a match.
pub proof fn lemma_idle_on_other(prim: Prim, spine: Seq<ElimV>, elim: ElimV)
    requires
        !(elim is FunApp),
    ensures
        is_idle(prim, spine.push(elim)),
{
    let pushed = spine.push(elim);
    assert(pushed[pushed.len() - 1] == elim);
}

/// An inert primitive applied to settled values is a settled value.
pub proof fn lemma_inert_settled(metas: Seq<Option<ArcValueV>>, prim: Prim, args: Seq<ArcValueV>)
    requires
        is_inert(prim),
        are_settled(metas, args),
    ensures
        is_settled(metas, prim_value(prim, args)),
{
    let spine = Seq::new(args.len(), |i: int| ElimV::FunApp(args[i]));
    lemma_stuck_settled(metas, Head::Prim(prim), spine);
    assert forall|i: int| 0 <= i < spine.len() implies is_settled_elim(
        metas,
        #[trigger] spine[i],
    ) by {
        assert(is_settled(metas, args[i].value));
    }
    assert forall|k: int| 0 < k <= spine.len() implies is_idle(prim, #[trigger] spine.take(k)) by {
        lemma_inert_idle(prim, spine.take(k));
    }
}

proof fn lemma_inert_idle(prim: Prim, spine: Seq<ElimV>)
    requires
        is_inert(prim),
    ensures
        is_idle(prim, spine),
{
    assert forall|x: Const| fold_unary(prim, x) is None by {}
    assert forall|x: Const, y: Const| fold_binary(prim, x, y) is None by {}
}

/// The representation of a format that is not known is a settled value.
pub proof fn lemma_stuck_repr_settled(metas: Seq<Option<ArcValueV>>, format: ArcValueV)
    requires
        is_settled(metas, format.value),
        is_stuck_repr(format),
    ensures
        is_settled(metas, stuck_repr(format).value),
{
    let args = seq![format];
    let spine = Seq::new(args.len(), |i: int| ElimV::FunApp(args[i]));
    lemma_stuck_settled(metas, Head::Prim(Prim::FormatRepr), spine);
    assert forall|i: int| 0 <= i < spine.len() implies is_settled_elim(
        metas,
        #[trigger] spine[i],
    ) by {}
    assert forall|k: int| 0 < k <= spine.len() implies is_idle(
        Prim::FormatRepr,
        #[trigger] spine.take(k),
    ) by {
        assert(spine.take(k)[0] == spine[0]);
    }
}

/// The representation of a format whose representation is not known is
/// the primitive for representations applied to the format.
pub proof fn lemma_stuck_repr(fuel: nat, tables: TablesV, format: ArcValueV)
    requires
        fuel > 0,
        is_stuck_repr(format),
    ensures
        format_repr(fuel, tables, format) == Ok::<ArcValueV, Stop>(stuck_repr(format)),
{
    match format.value {
        ValueV::Stuck(Head::Prim(prim), spine) => {
            assert(prim_repr((fuel - 1) as nat, tables, format, prim, spine) == Ok::<
                ArcValueV,
                Stop,
            >(stuck_repr(format)));
        },
        _ => {},
    }
}

/// Forcing leaves a settled value as it is.
pub proof fn lemma_force_settled(fuel: nat, tables: TablesV, value: ArcValueV)
    requires
        fuel > 0,
        is_settled(tables.metas, value.value),
    ensures
        force(fuel, tables, value) == Ok::<ArcValueV, Stop>(value),
{
}

/// Evaluation yields settled values, in an environment of settled values.
pub proof fn lemma_eval_settled(fuel: nat, tables: TablesV, locals: Seq<ArcValueV>, term: TermV)
    requires
        are_settled_tables(tables),
        are_settled(tables.metas, locals),
    ensures
        is_settled_result(tables.metas, eval(fuel, tables, locals, term)),
    decreases fuel, 0nat,
{
    if fuel > 0 {
        let f = (fuel - 1) as nat;
        let metas = tables.metas;
        match term {
            TermV::ItemVar(_, var) => {
                if var.0 < tables.items.len() {
                    assert(is_settled(metas, tables.items[var.0 as int].value));
                }
            },
            TermV::LocalVar(_, var) => {
                if var.0 < locals.len() {
                    assert(is_settled(metas, locals[locals.len() - 1 - var.0].value));
                }
            },
            TermV::MetaVar(span, var) => {
                lemma_meta_value_settled(tables, span, var);
            },
            TermV::InsertedMeta(span, var, infos) => {
                lemma_meta_value_settled(tables, span, var);
                match meta_value(tables, span, var) {
                    Ok(head) => {
                        lemma_apply_local_infos_settled(f, tables, head, infos, locals, 0);
                    },
                    Err(_) => {},
                }
            },
            TermV::Ann(_, expr, _) => {
                lemma_eval_settled(f, tables, locals, *expr);
            },
            TermV::Let(_, _, _, def_expr, body_expr) => {
                lemma_eval_settled(f, tables, locals, *def_expr);
                match eval(f, tables, locals, *def_expr) {
                    Ok(def) => {
                        lemma_env_push(metas, locals, def);
                        lemma_eval_settled(f, tables, locals.push(def), *body_expr);
                    },
                    Err(_) => {},
                }
            },
            TermV::FunType(_, _, param_type, _) => {
                lemma_eval_settled(f, tables, locals, *param_type);
            },
            TermV::FunApp(_, head_expr, arg_expr) => {
                lemma_eval_settled(f, tables, locals, *head_expr);
                lemma_eval_settled(f, tables, locals, *arg_expr);
                match (eval(f, tables, locals, *head_expr), eval(f, tables, locals, *arg_expr)) {
                    (Ok(head), Ok(arg)) => {
                        lemma_fun_app_settled(f, tables, head, arg);
                    },
                    _ => {},
                }
            },
            TermV::RecordLit(_, _, exprs) => {
                lemma_eval_all_settled(f, tables, locals, exprs, 0);
            },
            TermV::ArrayLit(_, exprs) => {
                lemma_eval_all_settled(f, tables, locals, exprs, 0);
            },
            TermV::RecordProj(_, head_expr, label) => {
                lemma_eval_settled(f, tables, locals, *head_expr);
                match eval(f, tables, locals, *head_expr) {
                    Ok(head) => {
                        lemma_record_proj_settled(metas, head, label);
                    },
                    Err(_) => {},
                }
            },
            TermV::FormatCond(_, _, format, _) => {
                lemma_eval_settled(f, tables, locals, *format);
            },
            TermV::Prim(_, prim) => {
                lemma_stuck_settled(
                    metas,
                    Head::Prim(prim),
                    Seq::new(0, |i: int| ElimV::FunApp(Seq::<ArcValueV>::empty()[i])),
                );
            },
            TermV::ConstMatch(_, head_expr, branches, default_expr) => {
                lemma_eval_settled(f, tables, locals, *head_expr);
                match eval(f, tables, locals, *head_expr) {
                    Ok(head) => {
                        lemma_const_match_settled(
                            f,
                            tables,
                            head,
                            BranchesV {
                                local_exprs: locals,
                                pattern_branches: branches,
                                default_expr: match default_expr {
                                    Some(expr) => Some(*expr),
                                    None => None,
                                },
                            },
                        );
                    },
                    Err(_) => {},
                }
            },
            _ => {},
        }
    }
}

/// An environment of settled values stays one with one more settled value.
pub proof fn lemma_env_push(metas: Seq<Option<ArcValueV>>, locals: Seq<ArcValueV>, value: ArcValueV)
    requires
        are_settled(metas, locals),
        is_settled(metas, value.value),
    ensures
        are_settled(metas, locals.push(value)),
{
    let pushed = locals.push(value);
    assert forall|i: int| 0 <= i < pushed.len() implies is_settled(
        metas,
        (#[trigger] pushed[i]).value,
    ) by {
        if i < locals.len() {
            assert(pushed[i] == locals[i]);
        }
    }
}

proof fn lemma_meta_value_settled(tables: TablesV, span: Span, var: crate::env::Level)
    requires
        are_settled_tables(tables),
    ensures
        is_settled_result(tables.metas, meta_value(tables, span, var)),
{
    if var.0 < tables.metas.len() {
        match tables.metas[var.0 as int] {
            Some(_) => {},
            None => {
                lemma_stuck_settled(tables.metas, Head::MetaVar(var), Seq::empty());
            },
        }
    }
}

proof fn lemma_eval_all_settled(
    fuel: nat,
    tables: TablesV,
    locals: Seq<ArcValueV>,
    terms: Seq<TermV>,
    from: int,
)
    requires
        are_settled_tables(tables),
        are_settled(tables.metas, locals),
    ensures
        eval_all(fuel, tables, locals, terms, from) matches Ok(values) ==> are_settled(
            tables.metas,
            values,
        ),
    decreases fuel, 1 + terms.len() - from,
{
    if 0 <= from < terms.len() {
        lemma_eval_settled(fuel, tables, locals, terms[from]);
        lemma_eval_all_settled(fuel, tables, locals, terms, from + 1);
        match (
            eval(fuel, tables, locals, terms[from]),
            eval_all(fuel, tables, locals, terms, from + 1),
        ) {
            (Ok(value), Ok(values)) => {
                let all = seq![value] + values;
                assert forall|i: int| 0 <= i < all.len() implies is_settled(
                    tables.metas,
                    (#[trigger] all[i]).value,
                ) by {
                    if i > 0 {
                        assert(all[i] == values[i - 1]);
                    }
                }
            },
            _ => {},
        }
    }
}

proof fn lemma_apply_local_infos_settled(
    fuel: nat,
    tables: TablesV,
    head: ArcValueV,
    infos: Seq<LocalInfo>,
    locals: Seq<ArcValueV>,
    from: int,
)
    requires
        are_settled_tables(tables),
        are_settled(tables.metas, locals),
        is_settled(tables.metas, head.value),
    ensures
        is_settled_result(tables.metas, apply_local_infos(fuel, tables, head, infos, locals, from)),
    decreases fuel, 1 + infos.len() - from,
{
    if 0 <= from < infos.len() && from < locals.len() {
        match infos[from] {
            LocalInfo::Def => {
                lemma_apply_local_infos_settled(fuel, tables, head, infos, locals, from + 1);
            },
            LocalInfo::Param => {
                assert(is_settled(tables.metas, locals[from].value));
                lemma_fun_app_settled(fuel, tables, head, locals[from]);
                match fun_app(fuel, tables, head, locals[from]) {
                    Ok(applied) => {
                        lemma_apply_local_infos_settled(
                            fuel,
                            tables,
                            applied,
                            infos,
                            locals,
                            from + 1,
                        );
                    },
                    Err(_) => {},
                }
            },
        }
    }
}

/// The application of a closure over settled values to a settled value is
/// a settled value.
pub proof fn lemma_apply_closure_settled(
    fuel: nat,
    tables: TablesV,
    closure: ClosureV,
    arg: ArcValueV,
)
    requires
        are_settled_tables(tables),
        are_settled(tables.metas, closure.local_exprs),
        is_settled(tables.metas, arg.value),
    ensures
        is_settled_result(tables.metas, apply_closure(fuel, tables, closure, arg)),
    decreases fuel, 0nat,
{
    if fuel > 0 {
        lemma_env_push(tables.metas, closure.local_exprs, arg);
        lemma_eval_settled(
            (fuel - 1) as nat,
            tables,
            closure.local_exprs.push(arg),
            closure.term,
        );
    }
}

/// The application of a settled value to a settled value is a settled
/// value.
pub proof fn lemma_fun_app_settled(fuel: nat, tables: TablesV, head: ArcValueV, arg: ArcValueV)
    requires
        are_settled_tables(tables),
        is_settled(tables.metas, head.value),
        is_settled(tables.metas, arg.value),
    ensures
        is_settled_result(tables.metas, fun_app(fuel, tables, head, arg)),
    decreases fuel, 0nat,
{
    if fuel > 0 {
        let f = (fuel - 1) as nat;
        let metas = tables.metas;
        match head.value {
            ValueV::FunLit(_, body_expr) => {
                lemma_apply_closure_settled(f, tables, body_expr, arg);
            },
            ValueV::Stuck(h, spine) => {
                let pushed = spine.push(ElimV::FunApp(arg));
                match h {
                    Head::Prim(prim) => {
                        lemma_stuck_settled(metas, h, spine);
                        assert forall|i: int| 0 <= i < pushed.len() implies is_settled_elim(
                            metas,
                            #[trigger] pushed[i],
                        ) by {
                            if i < spine.len() {
                                assert(pushed[i] == spine[i]);
                            }
                        }
                        lemma_prim_step_settled(f, tables, prim, pushed);
                        if prim_step(f, tables, prim, pushed) == Ok::<Option<ArcValueV>, Stop>(
                            None,
                        ) {
                            lemma_push_settled(metas, h, spine, ElimV::FunApp(arg));
                        }
                    },
                    _ => {
                        lemma_push_settled(metas, h, spine, ElimV::FunApp(arg));
                    },
                }
            },
            _ => {},
        }
    }
}

proof fn lemma_position_bounds(labels: Seq<StringId>, label: StringId, from: int)
    requires
        0 <= from,
    ensures
        label_position(labels, label, from) matches Some(i) ==> from <= i < labels.len(),
    decreases labels.len() - from,
{
    if from < labels.len() && labels[from] != label {
        lemma_position_bounds(labels, label, from + 1);
    }
}

/// A projection from a settled value is a settled value.
pub proof fn lemma_record_proj_settled(
    metas: Seq<Option<ArcValueV>>,
    head: ArcValueV,
    label: StringId,
)
    requires
        is_settled(metas, head.value),
    ensures
        is_settled_result(metas, record_proj(head, label)),
{
    match head.value {
        ValueV::RecordLit(labels, exprs) => {
            lemma_position_bounds(labels, label, 0);
            match label_position(labels, label, 0) {
                Some(i) => {
                    if 0 <= i < exprs.len() {
                        assert(is_settled(metas, exprs[i].value));
                    }
                },
                None => {},
            }
        },
        ValueV::Stuck(h, spine) => {
            match h {
                Head::Prim(prim) => {
                    lemma_idle_on_other(prim, spine, ElimV::RecordProj(label));
                },
                _ => {},
            }
            lemma_push_settled(metas, h, spine, ElimV::RecordProj(label));
        },
        _ => {},
    }
}

/// A match on a settled value, with branches over settled values, is a
/// settled value.
pub proof fn lemma_const_match_settled(
    fuel: nat,
    tables: TablesV,
    head: ArcValueV,
    branches: BranchesV,
)
    requires
        are_settled_tables(tables),
        is_settled(tables.metas, head.value),
        are_settled(tables.metas, branches.local_exprs),
    ensures
        is_settled_result(tables.metas, const_match(fuel, tables, head, branches)),
    decreases fuel, 0nat,
{
    if fuel > 0 {
        let f = (fuel - 1) as nat;
        let metas = tables.metas;
        match head.value {
            ValueV::ConstLit(constant) => {
                match branch_position(branches.pattern_branches, constant, 0) {
                    Some(i) => {
                        lemma_eval_settled(
                            f,
                            tables,
                            branches.local_exprs,
                            branches.pattern_branches[i].1,
                        );
                    },
                    None => {
                        match branches.default_expr {
                            Some(default_expr) => {
                                lemma_env_push(metas, branches.local_exprs, head);
                                lemma_eval_settled(
                                    f,
                                    tables,
                                    branches.local_exprs.push(head),
                                    default_expr,
                                );
                            },
                            None => {},
                        }
                    },
                }
            },
            ValueV::Stuck(h, spine) => {
                match h {
                    Head::Prim(prim) => {
                        lemma_idle_on_other(prim, spine, ElimV::ConstMatch(branches));
                    },
                    _ => {},
                }
                lemma_push_settled(metas, h, spine, ElimV::ConstMatch(branches));
            },
            _ => {},
        }
    }
}

/// A step of a primitive on settled values yields a settled value; and
/// where there is no step, the primitive has nothing to compute on them.
pub proof fn lemma_prim_step_settled(fuel: nat, tables: TablesV, prim: Prim, spine: Seq<ElimV>)
    requires
        are_settled_tables(tables),
        is_settled_spine(tables.metas, spine),
    ensures
        match prim_step(fuel, tables, prim, spine) {
            Ok(Some(reduced)) => is_settled(tables.metas, reduced.value),
            Ok(None) => is_idle(prim, spine),
            Err(_) => true,
        },
    decreases fuel, 0nat,
{
    if fuel > 0 {
        let f = (fuel - 1) as nat;
        let metas = tables.metas;
        if prim == Prim::FormatRepr {
            if is_args(spine, 1) {
                assert(is_settled_elim(metas, spine[0]));
                lemma_format_repr_settled(f, tables, app_arg(spine[0])->0);
            }
        } else if prim == Prim::OptionFold {
            if is_args(spine, 5) {
                assert(is_settled_elim(metas, spine[2]));
                assert(is_settled_elim(metas, spine[3]));
                assert(is_settled_elim(metas, spine[4]));
                lemma_option_fold_settled(
                    f,
                    tables,
                    app_arg(spine[2])->0,
                    app_arg(spine[3])->0,
                    app_arg(spine[4])->0,
                );
            }
        } else if is_array_find(prim) {
            if is_args(spine, 4) {
                assert(is_settled_elim(metas, spine[2]));
                assert(is_settled_elim(metas, spine[3]));
                match app_arg(spine[3])->0.value {
                    ValueV::ArrayLit(elems) => {
                        lemma_array_find_settled(f, tables, app_arg(spine[2])->0, elems, 0);
                    },
                    _ => {},
                }
            }
        } else if is_array_index(prim) {
            if is_args(spine, 4) {
                assert(is_settled_elim(metas, spine[3]));
                match array_index(spine) {
                    Some(elem) => {
                        let elems = app_arg(spine[3])->0.value->ArrayLit_0;
                        let index = crate::core_lang::model::index_of(
                            app_arg(spine[2])->0.value->ConstLit_0,
                        )->0;
                        assert(elem == elems[index]);
                        assert(is_settled(metas, elems[index].value));
                    },
                    None => {},
                }
            }
        } else {
        }
    }
}

proof fn lemma_option_fold_settled(
    fuel: nat,
    tables: TablesV,
    on_none: ArcValueV,
    on_some: ArcValueV,
    option: ArcValueV,
)
    requires
        are_settled_tables(tables),
        is_settled(tables.metas, on_none.value),
        is_settled(tables.metas, on_some.value),
        is_settled(tables.metas, option.value),
    ensures
        match option_fold(fuel, tables, on_none, on_some, option) {
            Ok(Some(reduced)) => is_settled(tables.metas, reduced.value),
            Ok(None) => is_stuck_option(option),
            Err(_) => true,
        },
    decreases fuel, 1nat,
{
    match option.value {
        ValueV::Stuck(Head::Prim(prim), args) => {
            if prim == Prim::OptionSome && is_args(args, 1) {
                lemma_stuck_settled(tables.metas, Head::Prim(prim), args);
                assert(is_settled_elim(tables.metas, args[0]));
                lemma_fun_app_settled(fuel, tables, on_some, app_arg(args[0])->0);
            }
        },
        _ => {},
    }
}

proof fn lemma_array_find_settled(
    fuel: nat,
    tables: TablesV,
    pred: ArcValueV,
    elems: Seq<ArcValueV>,
    from: int,
)
    requires
        are_settled_tables(tables),
        is_settled(tables.metas, pred.value),
        are_settled(tables.metas, elems),
    ensures
        array_find(fuel, tables, pred, elems, from) matches Ok(Some(found)) ==> is_settled(
            tables.metas,
            found.value,
        ),
    decreases fuel, 1 + elems.len() - from,
{
    if 0 <= from < elems.len() {
        assert(is_settled(tables.metas, elems[from].value));
        lemma_fun_app_settled(fuel, tables, pred, elems[from]);
        match fun_app(fuel, tables, pred, elems[from]) {
            Ok(found) => {
                match found.value {
                    ValueV::ConstLit(Const::Bool(true)) => {
                        let args = seq![elems[from]];
                        assert(are_settled(tables.metas, args));
                        lemma_inert_settled(tables.metas, Prim::OptionSome, args);
                    },
                    ValueV::ConstLit(Const::Bool(false)) => {
                        lemma_array_find_settled(fuel, tables, pred, elems, from + 1);
                    },
                    _ => {},
                }
            },
            Err(_) => {},
        }
    } else {
        lemma_inert_settled(tables.metas, Prim::OptionNone, Seq::empty());
    }
}

/// The representation of a settled format is a settled value.
pub proof fn lemma_format_repr_settled(fuel: nat, tables: TablesV, format: ArcValueV)
    requires
        are_settled_tables(tables),
        is_settled(tables.metas, format.value),
    ensures
        is_settled_result(tables.metas, format_repr(fuel, tables, format)),
    decreases fuel, 0nat,
{
    if fuel > 0 {
        let f = (fuel - 1) as nat;
        match format.value {
            ValueV::FormatCond(_, inner, _) => {
                lemma_format_repr_settled(f, tables, *inner);
            },
            ValueV::Stuck(Head::Prim(prim), spine) => {
                lemma_stuck_settled(tables.metas, Head::Prim(prim), spine);
                lemma_prim_repr_settled(f, tables, format, prim, spine);
            },
            ValueV::Stuck(_, _) => {
                lemma_stuck_repr_settled(tables.metas, format);
            },
            _ => {},
        }
    }
}

proof fn lemma_prim_repr_settled(
    fuel: nat,
    tables: TablesV,
    format: ArcValueV,
    prim: Prim,
    spine: Seq<ElimV>,
)
    requires
        are_settled_tables(tables),
        is_settled(tables.metas, format.value),
        is_settled_spine(tables.metas, spine),
        format.value == ValueV::Stuck(Head::Prim(prim), spine),
    ensures
        is_settled_result(tables.metas, prim_repr(fuel, tables, format, prim, spine)),
    decreases fuel, 1nat,
{
    let metas = tables.metas;
    if is_stuck_repr(format) {
        lemma_stuck_repr_settled(metas, format);
    }
    if spine.len() == 0 {
        match atomic_repr(prim) {
            Some(repr) => {
                lemma_inert_settled(metas, repr, Seq::empty());
            },
            None => {},
        }
    } else if spine.len() == 1 {
        assert(is_settled_elim(metas, spine[0]));
        match app_arg(spine[0]) {
            Some(elem) => {
                if prim == Prim::FormatRepeatUntilEnd {
                    lemma_format_repr_settled(fuel, tables, elem);
                    match format_repr(fuel, tables, elem) {
                        Ok(repr) => {
                            assert(are_settled(metas, seq![repr]));
                            lemma_inert_settled(metas, Prim::ArrayType, seq![repr]);
                        },
                        Err(_) => {},
                    }
                }
            },
            None => {},
        }
    } else if spine.len() == 2 {
        assert(is_settled_elim(metas, spine[0]));
        assert(is_settled_elim(metas, spine[1]));
        let first = app_arg(spine[0]);
        let second = app_arg(spine[1]);
        if array_repr(prim) is Some && first is Some && second is Some {
            lemma_format_repr_settled(fuel, tables, second->0);
            match format_repr(fuel, tables, second->0) {
                Ok(repr) => {
                    assert(are_settled(metas, seq![first->0, repr]));
                    lemma_inert_settled(metas, array_repr(prim)->0, seq![first->0, repr]);
                },
                Err(_) => {},
            }
        } else if is_limit(prim) && second is Some {
            lemma_format_repr_settled(fuel, tables, second->0);
        } else if prim == Prim::FormatLink && second is Some {
            assert(are_settled(metas, seq![second->0]));
            lemma_inert_settled(metas, Prim::RefType, seq![second->0]);
        } else if prim == Prim::FormatDeref && first is Some {
            lemma_format_repr_settled(fuel, tables, first->0);
        } else {
        }
    }
}

/// The first value of a telescope over settled values is settled.
pub proof fn lemma_split_telescope_settled(fuel: nat, tables: TablesV, telescope: TelescopeV)
    requires
        are_settled_tables(tables),
        are_settled(tables.metas, telescope.local_exprs),
    ensures
        split_telescope(fuel, tables, telescope) matches Ok(Some((value, rest))) ==> is_settled(
            tables.metas,
            value.value,
        ) && rest.local_exprs == telescope.local_exprs,
{
    if telescope.terms.len() > 0 && fuel > 0 {
        let f = (fuel - 1) as nat;
        lemma_eval_settled(f, tables, telescope.local_exprs, telescope.terms[0]);
        match eval(f, tables, telescope.local_exprs, telescope.terms[0]) {
            Ok(value) => {
                lemma_format_repr_settled(f, tables, value);
            },
            Err(_) => {},
        }
    }
}

/// The first branch of branches over settled values has a settled body.
pub proof fn lemma_split_branches_settled(fuel: nat, tables: TablesV, branches: BranchesV)
    requires
        are_settled_tables(tables),
        are_settled(tables.metas, branches.local_exprs),
    ensures
        match split_branches(fuel, tables, branches) {
            Ok(SplitBranchesV::Branch((_, body), next)) => is_settled(tables.metas, body.value)
                && next.local_exprs == branches.local_exprs,
            Ok(SplitBranchesV::Default(default_expr)) => default_expr.local_exprs
                == branches.local_exprs,
            _ => true,
        },
{
    if branches.pattern_branches.len() > 0 && fuel > 0 {
        lemma_eval_settled(
            (fuel - 1) as nat,
            tables,
            branches.local_exprs,
            branches.pattern_branches[0].1,
        );
    }
}

} // verus!
