//! Normal forms are fixed points of normalisation. A term that quotation
//! has read back from a settled value, in an environment of variables,
//! evaluates to a value of the same shape, which quotation reads back into
//! the same term.
//!
//! This is shown for the terms in which no search of an array literal is
//! left, and in which the span of the representation of a format covers the
//! span of the format wherever the representation is not known.

use crate::core_lang::budget::{lemma_eval_all_step, lemma_eval_stable, within_limits};
use crate::core_lang::budget_quote::{
    lemma_quote_all_step, lemma_quote_branches_step, lemma_quote_closure_step,
    lemma_quote_spine_step, lemma_quote_stable, lemma_quote_telescope_step,
};
use crate::core_lang::model::{
    app_arg, apply_closure, eval, eval_all, force, fresh_var, is_args, is_array_find, local_var,
    max_len, prim_step, quote, quote_all, quote_branches, quote_closure, quote_forced,
    quote_head, quote_spine, quote_telescope, resume_telescope, spanned, split_branches,
    split_telescope, ArcValueV, BranchesV, ClosureV, ElimV, Head, SplitBranchesV, Stop, TablesV,
    TelescopeV, ValueV,
};
use crate::core_lang::budget_quote::{lemma_is_equal_stable, lemma_normalise_stable};
use crate::core_lang::model::{is_equal, normalise};
use crate::core_lang::normal_forms::{lemma_same_quote, quote_elim};
use crate::core_lang::model::stuck_repr;
use crate::core_lang::settled::{lemma_eval_settled, lemma_stuck_repr};
use crate::core_lang::model::{const_match, fun_app, merged, prim_value, record_proj};
use crate::core_lang::settled::{
    are_settled, are_settled_tables, is_idle, is_settled, is_settled_elim, is_settled_spine,
    lemma_apply_closure_settled, lemma_env_push, lemma_force_settled,
    is_settled_head, lemma_split_branches_settled, lemma_split_telescope_settled,
    lemma_stuck_settled,
};
use crate::core_lang::{Const, Prim, TermV};
use crate::env::Level;
use crate::source::Span;
use vstd::prelude::*;

verus! {

/// Whether the environment holds, at each level, the variable of that
/// level.
pub open spec fn are_variables(locals: Seq<ArcValueV>) -> bool {
    locals.len() <= max_len() && forall|i: int|
        0 <= i < locals.len() ==> (#[trigger] locals[i]).value == local_var(Level(i as u16))
}

/// Whether a term is a primitive that searches an array, applied to all
/// its arguments but the array.
pub open spec fn is_search(term: TermV) -> bool {
    match term {
        TermV::FunApp(_, first, _) => match *first {
            TermV::FunApp(_, second, _) => match *second {
                TermV::FunApp(_, head, _) => match *head {
                    TermV::Prim(_, prim) => is_array_find(prim),
                    _ => false,
                },
                _ => false,
            },
            _ => false,
        },
        _ => false,
    }
}

/// Whether the application of a head to an argument, with the span of the
/// application, keeps its span as it is evaluated: where the head is the
/// primitive that takes a format to its representation, the span of the
/// application covers that of the format.
pub open spec fn is_coherent_app(span: Span, head_expr: TermV, arg_expr: TermV) -> bool {
    head_expr matches TermV::Prim(_, Prim::FormatRepr) ==> arg_expr.span().spec_merge(span)
        == span
}

/// Whether a term is plain: no application in it searches an array
/// literal, and each application keeps its span.
pub open spec fn is_plain(term: TermV) -> bool
    decreases term,
{
    match term {
        TermV::ItemVar(_, _) => true,
        TermV::LocalVar(_, _) => true,
        TermV::MetaVar(_, _) => true,
        TermV::InsertedMeta(_, _, _) => true,
        TermV::Ann(_, expr, ty) => is_plain(*expr) && is_plain(*ty),
        TermV::Let(_, _, def_type, def_expr, body_expr) => is_plain(*def_type) && is_plain(
            *def_expr,
        ) && is_plain(*body_expr),
        TermV::Universe(_) => true,
        TermV::FunType(_, _, param_type, body_type) => is_plain(*param_type) && is_plain(
            *body_type,
        ),
        TermV::FunLit(_, _, body_expr) => is_plain(*body_expr),
        TermV::FunApp(span, head_expr, arg_expr) => is_plain(*head_expr) && is_plain(*arg_expr)
            && is_coherent_app(span, *head_expr, *arg_expr) && !(is_search(*head_expr)
            && *arg_expr is ArrayLit),
        TermV::RecordType(_, _, types) => forall|i: int|
            0 <= i < types.len() ==> is_plain(#[trigger] types[i]),
        TermV::RecordLit(_, _, exprs) => forall|i: int|
            0 <= i < exprs.len() ==> is_plain(#[trigger] exprs[i]),
        TermV::RecordProj(_, head_expr, _) => is_plain(*head_expr),
        TermV::ArrayLit(_, exprs) => forall|i: int|
            0 <= i < exprs.len() ==> is_plain(#[trigger] exprs[i]),
        TermV::FormatRecord(_, _, formats) => forall|i: int|
            0 <= i < formats.len() ==> is_plain(#[trigger] formats[i]),
        TermV::FormatCond(_, _, format, cond) => is_plain(*format) && is_plain(*cond),
        TermV::FormatOverlap(_, _, formats) => forall|i: int|
            0 <= i < formats.len() ==> is_plain(#[trigger] formats[i]),
        TermV::Prim(_, _) => true,
        TermV::ConstLit(_, _) => true,
        TermV::ConstMatch(_, head_expr, branches, default_expr) => is_plain(*head_expr)
            && (forall|i: int| 0 <= i < branches.len() ==> is_plain((#[trigger] branches[i]).1))
            && match default_expr {
            Some(expr) => is_plain(*expr),
            None => true,
        },
    }
}

/// Whether every term of a sequence is plain.
pub open spec fn are_plain(terms: Seq<TermV>) -> bool {
    forall|i: int| 0 <= i < terms.len() ==> is_plain(#[trigger] terms[i])
}

/// Whether the bodies of the branches and the default are plain.
pub open spec fn are_plain_branches(branches: Seq<(Const, TermV)>, default_expr: Option<TermV>) -> bool {
    (forall|i: int| 0 <= i < branches.len() ==> is_plain((#[trigger] branches[i]).1))
        && match default_expr {
        Some(expr) => is_plain(expr),
        None => true,
    }
}

/// The terms of a plain term that holds a sequence of terms are plain.
pub proof fn lemma_plain_terms(term: TermV)
    requires
        is_plain(term),
    ensures
        match term {
            TermV::RecordType(_, _, terms) => are_plain(terms),
            TermV::RecordLit(_, _, terms) => are_plain(terms),
            TermV::ArrayLit(_, terms) => are_plain(terms),
            TermV::FormatRecord(_, _, terms) => are_plain(terms),
            TermV::FormatOverlap(_, _, terms) => are_plain(terms),
            TermV::ConstMatch(_, _, branches, default_expr) => are_plain_branches(
                branches,
                match default_expr {
                    Some(expr) => Some(*expr),
                    None => None,
                },
            ),
            _ => true,
        },
{
    match term {
        TermV::RecordType(_, _, terms) => {
            assert forall|i: int| 0 <= i < terms.len() implies is_plain(#[trigger] terms[i]) by {
                assert(is_plain(term->RecordType_2[i]));
            }
        },
        TermV::RecordLit(_, _, terms) => {
            assert forall|i: int| 0 <= i < terms.len() implies is_plain(#[trigger] terms[i]) by {
                assert(is_plain(term->RecordLit_2[i]));
            }
        },
        TermV::ArrayLit(_, terms) => {
            assert forall|i: int| 0 <= i < terms.len() implies is_plain(#[trigger] terms[i]) by {
                assert(is_plain(term->ArrayLit_1[i]));
            }
        },
        TermV::FormatRecord(_, _, terms) => {
            assert forall|i: int| 0 <= i < terms.len() implies is_plain(#[trigger] terms[i]) by {
                assert(is_plain(term->FormatRecord_2[i]));
            }
        },
        TermV::FormatOverlap(_, _, terms) => {
            assert forall|i: int| 0 <= i < terms.len() implies is_plain(#[trigger] terms[i]) by {
                assert(is_plain(term->FormatOverlap_2[i]));
            }
        },
        TermV::ConstMatch(_, _, branches, _) => {
            assert forall|i: int| 0 <= i < branches.len() implies is_plain(
                (#[trigger] branches[i]).1,
            ) by {
                assert(is_plain(term->ConstMatch_2[i].1));
            }
        },
        _ => {},
    }
}

/// Whether two eliminations are of the same kind, with arguments of the
/// same shape.
pub open spec fn are_alike_elims(elim0: ElimV, elim1: ElimV) -> bool {
    match (elim0, elim1) {
        (ElimV::FunApp(arg0), ElimV::FunApp(arg1)) => is_alike(arg0.value, arg1.value),
        (ElimV::RecordProj(label0), ElimV::RecordProj(label1)) => label0 == label1,
        (ElimV::ConstMatch(_), ElimV::ConstMatch(_)) => true,
        (_, _) => false,
    }
}

/// Whether two values are of the same shape at their root: the same kind
/// of value, with the same head and as many eliminations of the same kinds
/// where they are stuck, the same constant, or as many items.
pub open spec fn is_alike(value0: ValueV, value1: ValueV) -> bool {
    match (value0, value1) {
        (ValueV::Stuck(head0, spine0), ValueV::Stuck(head1, spine1)) => head0 == head1
            && spine0.len() == spine1.len() && forall|i: int|
            0 <= i < spine0.len() ==> ((#[trigger] spine0[i]) is FunApp <==> spine1[i] is FunApp),
        (ValueV::Universe, ValueV::Universe) => true,
        (ValueV::FunType(_, _, _), ValueV::FunType(_, _, _)) => true,
        (ValueV::FunLit(_, _), ValueV::FunLit(_, _)) => true,
        (ValueV::RecordType(_, _), ValueV::RecordType(_, _)) => true,
        (ValueV::RecordLit(_, exprs0), ValueV::RecordLit(_, exprs1)) => exprs0.len()
            == exprs1.len(),
        (ValueV::ArrayLit(exprs0), ValueV::ArrayLit(exprs1)) => exprs0.len() == exprs1.len(),
        (ValueV::FormatRecord(_, _), ValueV::FormatRecord(_, _)) => true,
        (ValueV::FormatCond(_, _, _), ValueV::FormatCond(_, _, _)) => true,
        (ValueV::FormatOverlap(_, _), ValueV::FormatOverlap(_, _)) => true,
        (ValueV::ConstLit(const0), ValueV::ConstLit(const1)) => const0 == const1,
        (_, _) => false,
    }
}

/// Whether two spines are of the same length, with eliminations that are
/// alike at each position.
pub open spec fn are_alike_spines(spine0: Seq<ElimV>, spine1: Seq<ElimV>) -> bool {
    spine0.len() == spine1.len() && forall|i: int|
        0 <= i < spine0.len() ==> are_alike_elims(#[trigger] spine0[i], spine1[i])
}

/// A primitive that has nothing to compute on a spine has nothing to
/// compute on a spine that is alike.
pub proof fn lemma_idle_alike(prim: Prim, spine0: Seq<ElimV>, spine1: Seq<ElimV>)
    requires
        are_alike_spines(spine0, spine1),
        is_idle(prim, spine0),
    ensures
        is_idle(prim, spine1),
{
    if spine0.len() > 0 {
        assert(are_alike_elims(spine0[0], spine1[0]));
    }
    if spine0.len() > 1 {
        assert(are_alike_elims(spine0[1], spine1[1]));
    }
    if spine0.len() > 2 {
        assert(are_alike_elims(spine0[2], spine1[2]));
    }
    if spine0.len() > 3 {
        assert(are_alike_elims(spine0[3], spine1[3]));
    }
    if spine0.len() > 4 {
        assert(are_alike_elims(spine0[4], spine1[4]));
    }
    if prim == Prim::OptionFold && is_args(spine1, 5) {
        let option0 = app_arg(spine0[4])->0;
        let option1 = app_arg(spine1[4])->0;
        match (option0.value, option1.value) {
            (ValueV::Stuck(_, args0), ValueV::Stuck(_, args1)) => {
                if args0.len() > 0 {
                    assert(args0[0] is FunApp <==> args1[0] is FunApp);
                }
            },
            _ => {},
        }
    }
    if prim == Prim::FormatRepr && is_args(spine1, 1) {
        let format0 = app_arg(spine0[0])->0;
        let format1 = app_arg(spine1[0])->0;
        match (format0.value, format1.value) {
            (ValueV::Stuck(_, args0), ValueV::Stuck(_, args1)) => {
                if args0.len() > 0 {
                    assert(args0[0] is FunApp <==> args1[0] is FunApp);
                }
                if args0.len() > 1 {
                    assert(args0[1] is FunApp <==> args1[1] is FunApp);
                }
            },
            _ => {},
        }
    }
}

/// A primitive does not step on a spine on which it has nothing to
/// compute: unless it takes a format to its representation, or searches an
/// array literal.
pub proof fn lemma_idle_step(fuel: nat, tables: TablesV, prim: Prim, spine: Seq<ElimV>)
    requires
        fuel > 0,
        is_idle(prim, spine),
        prim == Prim::FormatRepr ==> !is_args(spine, 1),
        is_array_find(prim) && is_args(spine, 4) ==> !(app_arg(spine[3])->0.value is ArrayLit),
    ensures
        prim_step(fuel, tables, prim, spine) == Ok::<Option<ArcValueV>, Stop>(None),
{
}

/// The primitive that takes a format to its representation steps to
/// itself on a format whose representation is not known.
pub proof fn lemma_repr_step(fuel: nat, tables: TablesV, spine: Seq<ElimV>)
    requires
        fuel > 1,
        is_args(spine, 1),
        is_idle(Prim::FormatRepr, spine),
    ensures
        prim_step(fuel, tables, Prim::FormatRepr, spine) == Ok::<Option<ArcValueV>, Stop>(
            Some(stuck_repr(app_arg(spine[0])->0)),
        ),
{
    lemma_stuck_repr((fuel - 1) as nat, tables, app_arg(spine[0])->0);
}

/// Whether a stuck value keeps its span as its term is evaluated: where
/// its head is the primitive that takes a format to its representation,
/// the span of the value covers that of the format.
pub open spec fn is_coherent(span: Span, head: Head, spine: Seq<ElimV>) -> bool {
    head == Head::Prim(Prim::FormatRepr) && spine.len() > 0 ==> match spine[0] {
        ElimV::FunApp(arg) => arg.span.spec_merge(span) == span,
        _ => true,
    }
}

/// Whether a stuck value searches no array literal: where its head is a
/// primitive that searches an array, the array is no literal.
pub open spec fn is_unsearched(head: Head, spine: Seq<ElimV>) -> bool {
    head matches Head::Prim(prim) && is_array_find(prim) && spine.len() >= 4 && is_args(
        spine.take(4),
        4,
    ) ==> !(app_arg(spine[3])->0.value is ArrayLit)
}

/// Evaluation that ended within its limits is the same within every
/// larger budget.
pub proof fn lemma_eval_lift(g: nat, h: nat, tables: TablesV, locals: Seq<ArcValueV>, term: TermV)
    requires
        g <= h,
        within_limits(eval(g, tables, locals, term)),
    ensures
        eval(h, tables, locals, term) == eval(g, tables, locals, term),
{
    lemma_eval_stable(g, (h - g) as nat, tables, locals, term);
}

/// Quotation that ended within its limits is the same within every larger
/// budget.
pub proof fn lemma_quote_lift(g: nat, h: nat, tables: TablesV, len: nat, value: ArcValueV)
    requires
        g <= h,
        within_limits(quote(g, tables, len, false, value)),
    ensures
        quote(h, tables, len, false, value) == quote(g, tables, len, false, value),
{
    lemma_quote_stable(g, (h - g) as nat, tables, len, false, value);
}

/// The evaluation of terms that ended within its limits is the same within
/// every larger budget.
pub proof fn lemma_eval_all_lift(
    g: nat,
    h: nat,
    tables: TablesV,
    locals: Seq<ArcValueV>,
    terms: Seq<TermV>,
    from: int,
)
    requires
        g <= h,
        within_limits(eval_all(g, tables, locals, terms, from)),
    ensures
        eval_all(h, tables, locals, terms, from) == eval_all(g, tables, locals, terms, from),
    decreases h - g,
{
    if g < h {
        lemma_eval_all_lift(g, (h - 1) as nat, tables, locals, terms, from);
        lemma_eval_all_step((h - 1) as nat, tables, locals, terms, from);
    }
}

/// The quotation of values that ended within its limits is the same within
/// every larger budget.
pub proof fn lemma_quote_all_lift(
    g: nat,
    h: nat,
    tables: TablesV,
    len: nat,
    values: Seq<ArcValueV>,
    from: int,
)
    requires
        g <= h,
        within_limits(quote_all(g, tables, len, false, values, from)),
    ensures
        quote_all(h, tables, len, false, values, from) == quote_all(
            g,
            tables,
            len,
            false,
            values,
            from,
        ),
    decreases h - g,
{
    if g < h {
        lemma_quote_all_lift(g, (h - 1) as nat, tables, len, values, from);
        lemma_quote_all_step((h - 1) as nat, tables, len, false, values, from);
    }
}

/// The quotation of a closure that ended within its limits is the same
/// within every larger budget.
pub proof fn lemma_quote_closure_lift(
    g: nat,
    h: nat,
    tables: TablesV,
    len: nat,
    closure: ClosureV,
)
    requires
        g <= h,
        within_limits(quote_closure(g, tables, len, false, closure)),
    ensures
        quote_closure(h, tables, len, false, closure) == quote_closure(
            g,
            tables,
            len,
            false,
            closure,
        ),
    decreases h - g,
{
    if g < h {
        lemma_quote_closure_lift(g, (h - 1) as nat, tables, len, closure);
        lemma_quote_closure_step((h - 1) as nat, tables, len, false, closure);
    }
}

/// The quotation of a telescope that ended within its limits is the same
/// within every larger budget.
pub proof fn lemma_quote_telescope_lift(
    g: nat,
    h: nat,
    tables: TablesV,
    len: nat,
    telescope: TelescopeV,
)
    requires
        g <= h,
        within_limits(quote_telescope(g, tables, len, false, telescope)),
    ensures
        quote_telescope(h, tables, len, false, telescope) == quote_telescope(
            g,
            tables,
            len,
            false,
            telescope,
        ),
    decreases h - g,
{
    if g < h {
        lemma_quote_telescope_lift(g, (h - 1) as nat, tables, len, telescope);
        lemma_quote_telescope_step((h - 1) as nat, tables, len, false, telescope);
    }
}

/// The quotation of branches that ended within its limits is the same
/// within every larger budget.
pub proof fn lemma_quote_branches_lift(
    g: nat,
    h: nat,
    tables: TablesV,
    len: nat,
    branches: BranchesV,
)
    requires
        g <= h,
        within_limits(quote_branches(g, tables, len, false, branches)),
    ensures
        quote_branches(h, tables, len, false, branches) == quote_branches(
            g,
            tables,
            len,
            false,
            branches,
        ),
    decreases h - g,
{
    if g < h {
        lemma_quote_branches_lift(g, (h - 1) as nat, tables, len, branches);
        lemma_quote_branches_step((h - 1) as nat, tables, len, false, branches);
    }
}

/// The quotation of a spine that ended within its limits is the same
/// within every larger budget.
pub proof fn lemma_quote_spine_lift(
    g: nat,
    h: nat,
    tables: TablesV,
    len: nat,
    span: Span,
    head: TermV,
    spine: Seq<ElimV>,
    from: int,
)
    requires
        g <= h,
        within_limits(quote_spine(g, tables, len, false, span, head, spine, from)),
    ensures
        quote_spine(h, tables, len, false, span, head, spine, from) == quote_spine(
            g,
            tables,
            len,
            false,
            span,
            head,
            spine,
            from,
        ),
    decreases h - g,
{
    if g < h {
        lemma_quote_spine_lift(g, (h - 1) as nat, tables, len, span, head, spine, from);
        lemma_quote_spine_step((h - 1) as nat, tables, len, false, span, head, spine, from);
    }
}

/// Whether the term evaluates, within the budget and in the environment,
/// to a settled value with the span and the shape of the given value, which
/// quotation reads back into the term.
pub open spec fn restores(
    g: nat,
    tables: TablesV,
    locals: Seq<ArcValueV>,
    value: ArcValueV,
    term: TermV,
) -> bool {
    match eval(g, tables, locals, term) {
        Ok(back) => back.span == value.span && is_alike(value.value, back.value) && is_settled(
            tables.metas,
            back.value,
        ) && quote(g, tables, locals.len(), false, back) == Ok::<TermV, Stop>(term),
        Err(_) => false,
    }
}

/// What a term restores within a budget, it restores within every larger
/// budget, as the same value.
pub proof fn lemma_restores_lift(
    g: nat,
    h: nat,
    tables: TablesV,
    locals: Seq<ArcValueV>,
    value: ArcValueV,
    term: TermV,
)
    requires
        g <= h,
        restores(g, tables, locals, value, term),
    ensures
        restores(h, tables, locals, value, term),
        eval(h, tables, locals, term) == eval(g, tables, locals, term),
{
    lemma_eval_lift(g, h, tables, locals, term);
    lemma_quote_lift(g, h, tables, locals.len(), eval(g, tables, locals, term)->Ok_0);
}


/// Whether quotation reads the closure of the body over the environment
/// back into the body.
pub open spec fn restores_closure(
    g: nat,
    tables: TablesV,
    locals: Seq<ArcValueV>,
    body: TermV,
) -> bool {
    quote_closure(
        g,
        tables,
        locals.len(),
        false,
        ClosureV { local_exprs: locals, term: body },
    ) == Ok::<TermV, Stop>(body)
}

/// Whether quotation reads the telescope of the terms over the environment
/// back into the terms.
pub open spec fn restores_telescope(
    g: nat,
    tables: TablesV,
    locals: Seq<ArcValueV>,
    terms: Seq<TermV>,
) -> bool {
    quote_telescope(
        g,
        tables,
        locals.len(),
        false,
        TelescopeV { local_exprs: locals, apply_repr: false, terms },
    ) == Ok::<Seq<TermV>, Stop>(terms)
}

/// Whether quotation reads the branches over the environment back into
/// their terms.
pub open spec fn restores_branches(
    g: nat,
    tables: TablesV,
    locals: Seq<ArcValueV>,
    branches: Seq<(Const, TermV)>,
    default_expr: Option<TermV>,
) -> bool {
    quote_branches(
        g,
        tables,
        locals.len(),
        false,
        BranchesV { local_exprs: locals, pattern_branches: branches, default_expr },
    ) == Ok::<(Seq<(Const, TermV)>, Option<TermV>), Stop>((branches, default_expr))
}

/// Whether the terms evaluate to as many settled values as `count`, which
/// quotation reads back into the terms.
pub open spec fn restores_all(
    g: nat,
    tables: TablesV,
    locals: Seq<ArcValueV>,
    count: nat,
    terms: Seq<TermV>,
) -> bool {
    match eval_all(g, tables, locals, terms, 0) {
        Ok(backs) => backs.len() == count && are_settled(tables.metas, backs) && quote_all(
            g,
            tables,
            locals.len(),
            false,
            backs,
            0,
        ) == Ok::<Seq<TermV>, Stop>(terms),
        Err(_) => false,
    }
}

/// The variables of an environment are settled values.
pub proof fn lemma_variables_settled(metas: Seq<Option<ArcValueV>>, locals: Seq<ArcValueV>)
    requires
        are_variables(locals),
    ensures
        are_settled(metas, locals),
{
    assert forall|i: int| 0 <= i < locals.len() implies is_settled(
        metas,
        (#[trigger] locals[i]).value,
    ) by {
        lemma_stuck_settled(metas, Head::LocalVar(Level(i as u16)), Seq::empty());
    }
}

/// An environment of variables stays one with a fresh variable.
pub proof fn lemma_variables_push(metas: Seq<Option<ArcValueV>>, locals: Seq<ArcValueV>)
    requires
        are_variables(locals),
        locals.len() < max_len(),
    ensures
        are_variables(locals.push(fresh_var(locals.len()))),
        is_settled(metas, fresh_var(locals.len()).value),
{
    let pushed = locals.push(fresh_var(locals.len()));
    assert forall|i: int| 0 <= i < pushed.len() implies (#[trigger] pushed[i]).value == local_var(
        Level(i as u16),
    ) by {
        if i < locals.len() {
            assert(pushed[i] == locals[i]);
        }
    }
    lemma_stuck_settled(metas, Head::LocalVar(Level(locals.len() as u16)), Seq::empty());
}

/// The terms after the first of a sequence are evaluated as a sequence of
/// their own is.
proof fn lemma_eval_all_shift(
    g: nat,
    tables: TablesV,
    locals: Seq<ArcValueV>,
    first: TermV,
    rest: Seq<TermV>,
    from: int,
)
    requires
        0 <= from <= rest.len(),
    ensures
        eval_all(g, tables, locals, seq![first] + rest, from + 1) == eval_all(
            g,
            tables,
            locals,
            rest,
            from,
        ),
    decreases rest.len() - from,
{
    let all = seq![first] + rest;
    if from < rest.len() {
        assert(all[from + 1] == rest[from]);
        lemma_eval_all_shift(g, tables, locals, first, rest, from + 1);
    }
}

/// The values after the first of a sequence are quoted as a sequence of
/// their own is.
proof fn lemma_quote_all_shift(
    g: nat,
    tables: TablesV,
    len: nat,
    first: ArcValueV,
    rest: Seq<ArcValueV>,
    from: int,
)
    requires
        0 <= from <= rest.len(),
    ensures
        quote_all(g, tables, len, false, seq![first] + rest, from + 1) == quote_all(
            g,
            tables,
            len,
            false,
            rest,
            from,
        ),
    decreases rest.len() - from,
{
    let all = seq![first] + rest;
    if from < rest.len() {
        assert(all[from + 1] == rest[from]);
        lemma_quote_all_shift(g, tables, len, first, rest, from + 1);
    }
}

/// The larger of two budgets.
pub open spec fn larger(a: nat, b: nat) -> nat {
    if a >= b {
        a
    } else {
        b
    }
}

/// The term that quotation reads back from a settled value, where it is
/// plain, restores the value within some budget.
pub proof fn lemma_requote(fuel: nat, tables: TablesV, locals: Seq<ArcValueV>, value: ArcValueV) -> (g:
    nat)
    requires
        are_settled_tables(tables),
        are_variables(locals),
        is_settled(tables.metas, value.value),
        quote(fuel, tables, locals.len(), false, value) is Ok,
        is_plain(quote(fuel, tables, locals.len(), false, value)->Ok_0),
    ensures
        restores(g, tables, locals, value, quote(fuel, tables, locals.len(), false, value)->Ok_0),
    decreases fuel, 0nat, 0nat,
{
    let f = (fuel - 1) as nat;
    if f > 0 {
        lemma_force_settled(f, tables, value);
    }
    assert(quote(fuel, tables, locals.len(), false, value) == quote_forced(
        f,
        tables,
        locals.len(),
        false,
        value,
    ));
    match value.value {
        ValueV::Stuck(_, _) => lemma_requote_stuck(f, tables, locals, value),
        ValueV::FunType(_, _, _) => lemma_requote_fun_type(f, tables, locals, value),
        ValueV::FunLit(_, _) => lemma_requote_fun_lit(f, tables, locals, value),
        ValueV::RecordType(_, _) => lemma_requote_record_type(f, tables, locals, value),
        ValueV::FormatRecord(_, _) => lemma_requote_format_record(f, tables, locals, value),
        ValueV::FormatOverlap(_, _) => lemma_requote_format_overlap(f, tables, locals, value),
        ValueV::RecordLit(_, _) => lemma_requote_record_lit(f, tables, locals, value),
        ValueV::ArrayLit(_) => lemma_requote_array_lit(f, tables, locals, value),
        ValueV::FormatCond(_, _, _) => lemma_requote_cond(f, tables, locals, value),
        ValueV::Universe => lemma_requote_atom(f, tables, locals, value),
        ValueV::ConstLit(_) => lemma_requote_atom(f, tables, locals, value),
    }
}

proof fn lemma_requote_atom(fuel: nat, tables: TablesV, locals: Seq<ArcValueV>, value: ArcValueV) -> (g:
    nat)
    requires
        value.value is Universe || value.value is ConstLit,
        quote_forced(fuel, tables, locals.len(), false, value) is Ok,
    ensures
        restores(
            g,
            tables,
            locals,
            value,
            quote_forced(fuel, tables, locals.len(), false, value)->Ok_0,
        ),
{
    let term = quote_forced(fuel, tables, locals.len(), false, value)->Ok_0;
    let back = eval(2, tables, locals, term)->Ok_0;
    assert(force(1, tables, back) == Ok::<ArcValueV, Stop>(back));
    2
}

proof fn lemma_requote_fun_lit(
    fuel: nat,
    tables: TablesV,
    locals: Seq<ArcValueV>,
    value: ArcValueV,
) -> (g: nat)
    requires
        are_settled_tables(tables),
        are_variables(locals),
        is_settled(tables.metas, value.value),
        value.value is FunLit,
        quote_forced(fuel, tables, locals.len(), false, value) is Ok,
        is_plain(quote_forced(fuel, tables, locals.len(), false, value)->Ok_0),
    ensures
        restores(
            g,
            tables,
            locals,
            value,
            quote_forced(fuel, tables, locals.len(), false, value)->Ok_0,
        ),
    decreases fuel, 10nat, 0nat,
{
    let term = quote_forced(fuel, tables, locals.len(), false, value)->Ok_0;
    match value.value {
        ValueV::FunLit(name, body_expr) => {
            let body = quote_closure(fuel, tables, locals.len(), false, body_expr)->Ok_0;
            assert(term == TermV::FunLit(value.span, name, Box::new(body)));
            let g1 = lemma_requote_closure(fuel, tables, locals, body_expr);
            let g = g1 + 2;
            lemma_quote_closure_lift(
                g1,
                (g1 + 1) as nat,
                tables,
                locals.len(),
                ClosureV { local_exprs: locals, term: body },
            );
            lemma_variables_settled(tables.metas, locals);
            let back = eval(g, tables, locals, term)->Ok_0;
            assert(back == spanned(
                value.span,
                ValueV::FunLit(name, ClosureV { local_exprs: locals, term: body }),
            ));
            assert(force((g1 + 1) as nat, tables, back) == Ok::<ArcValueV, Stop>(back));
            g
        },
        _ => 0,
    }
}

proof fn lemma_requote_fun_type(
    fuel: nat,
    tables: TablesV,
    locals: Seq<ArcValueV>,
    value: ArcValueV,
) -> (g: nat)
    requires
        are_settled_tables(tables),
        are_variables(locals),
        is_settled(tables.metas, value.value),
        value.value is FunType,
        quote_forced(fuel, tables, locals.len(), false, value) is Ok,
        is_plain(quote_forced(fuel, tables, locals.len(), false, value)->Ok_0),
    ensures
        restores(
            g,
            tables,
            locals,
            value,
            quote_forced(fuel, tables, locals.len(), false, value)->Ok_0,
        ),
    decreases fuel, 10nat, 0nat,
{
    let term = quote_forced(fuel, tables, locals.len(), false, value)->Ok_0;
    let len = locals.len();
    match value.value {
        ValueV::FunType(name, param_type, body_type) => {
            let param = quote(fuel, tables, len, false, *param_type)->Ok_0;
            let body = quote_closure(fuel, tables, len, false, body_type)->Ok_0;
            assert(term == TermV::FunType(value.span, name, Box::new(param), Box::new(body)));
            let g0 = lemma_requote(fuel, tables, locals, *param_type);
            let g1 = lemma_requote_closure(fuel, tables, locals, body_type);
            let h = larger(g0, g1) + 1;
            let g = h + 1;
            lemma_restores_lift(g0, h, tables, locals, *param_type, param);
            lemma_quote_closure_lift(
                g1,
                h,
                tables,
                len,
                ClosureV { local_exprs: locals, term: body },
            );
            lemma_variables_settled(tables.metas, locals);
            let back_param = eval(h, tables, locals, param)->Ok_0;
            let back = eval(g, tables, locals, term)->Ok_0;
            assert(back == spanned(
                value.span,
                ValueV::FunType(
                    name,
                    Box::new(back_param),
                    ClosureV { local_exprs: locals, term: body },
                ),
            ));
            assert(force(h, tables, back) == Ok::<ArcValueV, Stop>(back));
            g
        },
        _ => 0,
    }
}

proof fn lemma_requote_cond(
    fuel: nat,
    tables: TablesV,
    locals: Seq<ArcValueV>,
    value: ArcValueV,
) -> (g: nat)
    requires
        are_settled_tables(tables),
        are_variables(locals),
        is_settled(tables.metas, value.value),
        value.value is FormatCond,
        quote_forced(fuel, tables, locals.len(), false, value) is Ok,
        is_plain(quote_forced(fuel, tables, locals.len(), false, value)->Ok_0),
    ensures
        restores(
            g,
            tables,
            locals,
            value,
            quote_forced(fuel, tables, locals.len(), false, value)->Ok_0,
        ),
    decreases fuel, 10nat, 0nat,
{
    let term = quote_forced(fuel, tables, locals.len(), false, value)->Ok_0;
    let len = locals.len();
    match value.value {
        ValueV::FormatCond(label, format, cond) => {
            let inner = quote(fuel, tables, len, false, *format)->Ok_0;
            let body = quote_closure(fuel, tables, len, false, cond)->Ok_0;
            assert(term == TermV::FormatCond(value.span, label, Box::new(inner), Box::new(body)));
            let g0 = lemma_requote(fuel, tables, locals, *format);
            let g1 = lemma_requote_closure(fuel, tables, locals, cond);
            let h = larger(g0, g1) + 1;
            let g = h + 1;
            lemma_restores_lift(g0, h, tables, locals, *format, inner);
            lemma_quote_closure_lift(
                g1,
                h,
                tables,
                len,
                ClosureV { local_exprs: locals, term: body },
            );
            lemma_variables_settled(tables.metas, locals);
            let back_format = eval(h, tables, locals, inner)->Ok_0;
            let back = eval(g, tables, locals, term)->Ok_0;
            assert(back == spanned(
                value.span,
                ValueV::FormatCond(
                    label,
                    Box::new(back_format),
                    ClosureV { local_exprs: locals, term: body },
                ),
            ));
            assert(force(h, tables, back) == Ok::<ArcValueV, Stop>(back));
            g
        },
        _ => 0,
    }
}

/// The term of fields over a telescope that is restored restores the
/// value of the fields.
proof fn lemma_back_record_type(
    g: nat,
    tables: TablesV,
    locals: Seq<ArcValueV>,
    span: Span,
    labels: Seq<crate::symbol::StringId>,
    terms: Seq<TermV>,
)
    requires
        are_variables(locals),
        restores_telescope(g, tables, locals, terms),
    ensures
        eval((g + 2) as nat, tables, locals, TermV::RecordType(span, labels, terms)) == Ok::<
            ArcValueV,
            Stop,
        >(
            spanned(
                span,
                ValueV::RecordType(
                    labels,
                    TelescopeV { local_exprs: locals, apply_repr: false, terms },
                ),
            ),
        ),
        is_settled(
            tables.metas,
            ValueV::RecordType(
                labels,
                TelescopeV { local_exprs: locals, apply_repr: false, terms },
            ),
        ),
        quote(
            (g + 2) as nat,
            tables,
            locals.len(),
            false,
            spanned(
                span,
                ValueV::RecordType(
                    labels,
                    TelescopeV { local_exprs: locals, apply_repr: false, terms },
                ),
            ),
        ) == Ok::<TermV, Stop>(TermV::RecordType(span, labels, terms)),
{
    let h = (g + 1) as nat;
    let back_telescope = TelescopeV { local_exprs: locals, apply_repr: false, terms };
    let back = spanned(span, ValueV::RecordType(labels, back_telescope));
    lemma_quote_telescope_lift(g, h, tables, locals.len(), back_telescope);
    lemma_variables_settled(tables.metas, locals);
    assert(is_settled(tables.metas, back.value));
    lemma_force_settled(h, tables, back);
}

proof fn lemma_requote_record_type(
    fuel: nat,
    tables: TablesV,
    locals: Seq<ArcValueV>,
    value: ArcValueV,
) -> (g: nat)
    requires
        are_settled_tables(tables),
        are_variables(locals),
        is_settled(tables.metas, value.value),
        value.value is RecordType,
        quote_forced(fuel, tables, locals.len(), false, value) is Ok,
        is_plain(quote_forced(fuel, tables, locals.len(), false, value)->Ok_0),
    ensures
        restores(
            g,
            tables,
            locals,
            value,
            quote_forced(fuel, tables, locals.len(), false, value)->Ok_0,
        ),
    decreases fuel, 10nat, 0nat,
{
    let len = locals.len();
    match value.value {
        ValueV::RecordType(labels, telescope) => {
            let terms = quote_telescope(fuel, tables, len, false, telescope)->Ok_0;
            let term = TermV::RecordType(value.span, labels, terms);
            assert(quote_forced(fuel, tables, len, false, value) == Ok::<TermV, Stop>(term));
            lemma_plain_terms(term);
            assert(are_plain(terms));
            let g1 = lemma_requote_telescope(fuel, tables, locals, telescope);
            lemma_back_record_type(g1, tables, locals, value.span, labels, terms);
            g1 + 2
        },
        _ => 0,
    }
}

/// The term of fields over a telescope that is restored restores the
/// value of the fields.
proof fn lemma_back_format_record(
    g: nat,
    tables: TablesV,
    locals: Seq<ArcValueV>,
    span: Span,
    labels: Seq<crate::symbol::StringId>,
    terms: Seq<TermV>,
)
    requires
        are_variables(locals),
        restores_telescope(g, tables, locals, terms),
    ensures
        eval((g + 2) as nat, tables, locals, TermV::FormatRecord(span, labels, terms)) == Ok::<
            ArcValueV,
            Stop,
        >(
            spanned(
                span,
                ValueV::FormatRecord(
                    labels,
                    TelescopeV { local_exprs: locals, apply_repr: false, terms },
                ),
            ),
        ),
        is_settled(
            tables.metas,
            ValueV::FormatRecord(
                labels,
                TelescopeV { local_exprs: locals, apply_repr: false, terms },
            ),
        ),
        quote(
            (g + 2) as nat,
            tables,
            locals.len(),
            false,
            spanned(
                span,
                ValueV::FormatRecord(
                    labels,
                    TelescopeV { local_exprs: locals, apply_repr: false, terms },
                ),
            ),
        ) == Ok::<TermV, Stop>(TermV::FormatRecord(span, labels, terms)),
{
    let h = (g + 1) as nat;
    let back_telescope = TelescopeV { local_exprs: locals, apply_repr: false, terms };
    let back = spanned(span, ValueV::FormatRecord(labels, back_telescope));
    lemma_quote_telescope_lift(g, h, tables, locals.len(), back_telescope);
    lemma_variables_settled(tables.metas, locals);
    assert(is_settled(tables.metas, back.value));
    lemma_force_settled(h, tables, back);
}

proof fn lemma_requote_format_record(
    fuel: nat,
    tables: TablesV,
    locals: Seq<ArcValueV>,
    value: ArcValueV,
) -> (g: nat)
    requires
        are_settled_tables(tables),
        are_variables(locals),
        is_settled(tables.metas, value.value),
        value.value is FormatRecord,
        quote_forced(fuel, tables, locals.len(), false, value) is Ok,
        is_plain(quote_forced(fuel, tables, locals.len(), false, value)->Ok_0),
    ensures
        restores(
            g,
            tables,
            locals,
            value,
            quote_forced(fuel, tables, locals.len(), false, value)->Ok_0,
        ),
    decreases fuel, 10nat, 0nat,
{
    let len = locals.len();
    match value.value {
        ValueV::FormatRecord(labels, telescope) => {
            let terms = quote_telescope(fuel, tables, len, false, telescope)->Ok_0;
            let term = TermV::FormatRecord(value.span, labels, terms);
            assert(quote_forced(fuel, tables, len, false, value) == Ok::<TermV, Stop>(term));
            lemma_plain_terms(term);
            assert(are_plain(terms));
            let g1 = lemma_requote_telescope(fuel, tables, locals, telescope);
            lemma_back_format_record(g1, tables, locals, value.span, labels, terms);
            g1 + 2
        },
        _ => 0,
    }
}

/// The term of fields over a telescope that is restored restores the
/// value of the fields.
proof fn lemma_back_format_overlap(
    g: nat,
    tables: TablesV,
    locals: Seq<ArcValueV>,
    span: Span,
    labels: Seq<crate::symbol::StringId>,
    terms: Seq<TermV>,
)
    requires
        are_variables(locals),
        restores_telescope(g, tables, locals, terms),
    ensures
        eval((g + 2) as nat, tables, locals, TermV::FormatOverlap(span, labels, terms)) == Ok::<
            ArcValueV,
            Stop,
        >(
            spanned(
                span,
                ValueV::FormatOverlap(
                    labels,
                    TelescopeV { local_exprs: locals, apply_repr: false, terms },
                ),
            ),
        ),
        is_settled(
            tables.metas,
            ValueV::FormatOverlap(
                labels,
                TelescopeV { local_exprs: locals, apply_repr: false, terms },
            ),
        ),
        quote(
            (g + 2) as nat,
            tables,
            locals.len(),
            false,
            spanned(
                span,
                ValueV::FormatOverlap(
                    labels,
                    TelescopeV { local_exprs: locals, apply_repr: false, terms },
                ),
            ),
        ) == Ok::<TermV, Stop>(TermV::FormatOverlap(span, labels, terms)),
{
    let h = (g + 1) as nat;
    let back_telescope = TelescopeV { local_exprs: locals, apply_repr: false, terms };
    let back = spanned(span, ValueV::FormatOverlap(labels, back_telescope));
    lemma_quote_telescope_lift(g, h, tables, locals.len(), back_telescope);
    lemma_variables_settled(tables.metas, locals);
    assert(is_settled(tables.metas, back.value));
    lemma_force_settled(h, tables, back);
}

proof fn lemma_requote_format_overlap(
    fuel: nat,
    tables: TablesV,
    locals: Seq<ArcValueV>,
    value: ArcValueV,
) -> (g: nat)
    requires
        are_settled_tables(tables),
        are_variables(locals),
        is_settled(tables.metas, value.value),
        value.value is FormatOverlap,
        quote_forced(fuel, tables, locals.len(), false, value) is Ok,
        is_plain(quote_forced(fuel, tables, locals.len(), false, value)->Ok_0),
    ensures
        restores(
            g,
            tables,
            locals,
            value,
            quote_forced(fuel, tables, locals.len(), false, value)->Ok_0,
        ),
    decreases fuel, 10nat, 0nat,
{
    let len = locals.len();
    match value.value {
        ValueV::FormatOverlap(labels, telescope) => {
            let terms = quote_telescope(fuel, tables, len, false, telescope)->Ok_0;
            let term = TermV::FormatOverlap(value.span, labels, terms);
            assert(quote_forced(fuel, tables, len, false, value) == Ok::<TermV, Stop>(term));
            lemma_plain_terms(term);
            assert(are_plain(terms));
            let g1 = lemma_requote_telescope(fuel, tables, locals, telescope);
            lemma_back_format_overlap(g1, tables, locals, value.span, labels, terms);
            g1 + 2
        },
        _ => 0,
    }
}

/// The term of items that are restored restores the value of the items.
proof fn lemma_back_record_lit(
    g: nat,
    tables: TablesV,
    locals: Seq<ArcValueV>,
    span: Span,
    labels: Seq<crate::symbol::StringId>,
    count: nat,
    terms: Seq<TermV>,
)
    requires
        restores_all(g, tables, locals, count, terms),
    ensures
        ({
            let backs = eval_all(g, tables, locals, terms, 0)->Ok_0;
            let back = spanned(span, ValueV::RecordLit(labels, backs));
            &&& backs.len() == count
            &&& eval((g + 2) as nat, tables, locals, TermV::RecordLit(span, labels, terms)) == Ok::<ArcValueV, Stop>(back)
            &&& is_settled(tables.metas, back.value)
            &&& quote((g + 2) as nat, tables, locals.len(), false, back) == Ok::<TermV, Stop>(
                TermV::RecordLit(span, labels, terms),
            )
        }),
{
    let h = (g + 1) as nat;
    let backs = eval_all(g, tables, locals, terms, 0)->Ok_0;
    let back = spanned(span, ValueV::RecordLit(labels, backs));
    lemma_eval_all_lift(g, h, tables, locals, terms, 0);
    lemma_quote_all_lift(g, h, tables, locals.len(), backs, 0);
    assert(is_settled(tables.metas, back.value));
    lemma_force_settled(h, tables, back);
}

proof fn lemma_requote_record_lit(
    fuel: nat,
    tables: TablesV,
    locals: Seq<ArcValueV>,
    value: ArcValueV,
) -> (g: nat)
    requires
        are_settled_tables(tables),
        are_variables(locals),
        is_settled(tables.metas, value.value),
        value.value is RecordLit,
        quote_forced(fuel, tables, locals.len(), false, value) is Ok,
        is_plain(quote_forced(fuel, tables, locals.len(), false, value)->Ok_0),
    ensures
        restores(
            g,
            tables,
            locals,
            value,
            quote_forced(fuel, tables, locals.len(), false, value)->Ok_0,
        ),
    decreases fuel, 10nat, 0nat,
{
    let len = locals.len();
    let span = value.span;
    match value.value {
        ValueV::RecordLit(labels, exprs) => {
            let terms = quote_all(fuel, tables, len, false, exprs, 0)->Ok_0;
            let term = TermV::RecordLit(span, labels, terms);
            assert(quote_forced(fuel, tables, len, false, value) == Ok::<TermV, Stop>(term));
            lemma_plain_terms(term);
            assert(are_plain(terms));
            assert(are_settled(tables.metas, exprs));
            let g1 = lemma_requote_all(fuel, tables, locals, exprs, 0);
            lemma_back_record_lit(g1, tables, locals, span, labels, exprs.len(), terms);
            g1 + 2
        },
        _ => 0,
    }
}

/// The term of items that are restored restores the value of the items.
proof fn lemma_back_array_lit(
    g: nat,
    tables: TablesV,
    locals: Seq<ArcValueV>,
    span: Span,
    labels: Seq<crate::symbol::StringId>,
    count: nat,
    terms: Seq<TermV>,
)
    requires
        restores_all(g, tables, locals, count, terms),
    ensures
        ({
            let backs = eval_all(g, tables, locals, terms, 0)->Ok_0;
            let back = spanned(span, ValueV::ArrayLit(backs));
            &&& backs.len() == count
            &&& eval((g + 2) as nat, tables, locals, TermV::ArrayLit(span, terms)) == Ok::<ArcValueV, Stop>(back)
            &&& is_settled(tables.metas, back.value)
            &&& quote((g + 2) as nat, tables, locals.len(), false, back) == Ok::<TermV, Stop>(
                TermV::ArrayLit(span, terms),
            )
        }),
{
    let h = (g + 1) as nat;
    let backs = eval_all(g, tables, locals, terms, 0)->Ok_0;
    let back = spanned(span, ValueV::ArrayLit(backs));
    lemma_eval_all_lift(g, h, tables, locals, terms, 0);
    lemma_quote_all_lift(g, h, tables, locals.len(), backs, 0);
    assert(is_settled(tables.metas, back.value));
    lemma_force_settled(h, tables, back);
}

proof fn lemma_requote_array_lit(
    fuel: nat,
    tables: TablesV,
    locals: Seq<ArcValueV>,
    value: ArcValueV,
) -> (g: nat)
    requires
        are_settled_tables(tables),
        are_variables(locals),
        is_settled(tables.metas, value.value),
        value.value is ArrayLit,
        quote_forced(fuel, tables, locals.len(), false, value) is Ok,
        is_plain(quote_forced(fuel, tables, locals.len(), false, value)->Ok_0),
    ensures
        restores(
            g,
            tables,
            locals,
            value,
            quote_forced(fuel, tables, locals.len(), false, value)->Ok_0,
        ),
    decreases fuel, 10nat, 0nat,
{
    let len = locals.len();
    let span = value.span;
    match value.value {
        ValueV::ArrayLit(exprs) => {
            let terms = quote_all(fuel, tables, len, false, exprs, 0)->Ok_0;
            let term = TermV::ArrayLit(span, terms);
            assert(quote_forced(fuel, tables, len, false, value) == Ok::<TermV, Stop>(term));
            lemma_plain_terms(term);
            assert(are_plain(terms));
            assert(are_settled(tables.metas, exprs));
            let g1 = lemma_requote_all(fuel, tables, locals, exprs, 0);
            lemma_back_array_lit(g1, tables, locals, span, Seq::empty(), exprs.len(), terms);
            g1 + 2
        },
        _ => 0,
    }
}

/// The body that quotation reads back from a closure over settled values,
/// where it is plain, is read back from its own closure over the variables.
pub proof fn lemma_requote_closure(
    fuel: nat,
    tables: TablesV,
    locals: Seq<ArcValueV>,
    closure: ClosureV,
) -> (g: nat)
    requires
        are_settled_tables(tables),
        are_variables(locals),
        are_settled(tables.metas, closure.local_exprs),
        quote_closure(fuel, tables, locals.len(), false, closure) is Ok,
        is_plain(quote_closure(fuel, tables, locals.len(), false, closure)->Ok_0),
    ensures
        restores_closure(
            g,
            tables,
            locals,
            quote_closure(fuel, tables, locals.len(), false, closure)->Ok_0,
        ),
    decreases fuel, 1nat, 0nat,
{
    let len = locals.len();
    let var = fresh_var(len);
    let applied = apply_closure(fuel, tables, closure, var)->Ok_0;
    let body = quote(fuel, tables, len + 1, false, applied)->Ok_0;
    lemma_variables_push(tables.metas, locals);
    lemma_apply_closure_settled(fuel, tables, closure, var);
    let inner = locals.push(var);
    let g1 = lemma_requote(fuel, tables, inner, applied);
    let g = g1 + 1;
    lemma_restores_lift(g1, g, tables, inner, applied, body);
    g
}

/// The terms that quotation reads back from a telescope over settled
/// values, where they are plain, are read back from their own telescope
/// over the variables.
pub proof fn lemma_requote_telescope(
    fuel: nat,
    tables: TablesV,
    locals: Seq<ArcValueV>,
    telescope: TelescopeV,
) -> (g: nat)
    requires
        are_settled_tables(tables),
        are_variables(locals),
        are_settled(tables.metas, telescope.local_exprs),
        quote_telescope(fuel, tables, locals.len(), false, telescope) is Ok,
        are_plain(quote_telescope(fuel, tables, locals.len(), false, telescope)->Ok_0),
    ensures
        restores_telescope(
            g,
            tables,
            locals,
            quote_telescope(fuel, tables, locals.len(), false, telescope)->Ok_0,
        ),
    decreases fuel, 2nat, telescope.terms.len(),
{
    let len = locals.len();
    match split_telescope(fuel, tables, telescope) {
        Ok(Some((value, rest))) => {
            lemma_split_telescope_settled(fuel, tables, telescope);
            let var = fresh_var(len);
            let term = quote(fuel, tables, len, false, value)->Ok_0;
            let next = resume_telescope(rest, var);
            let terms = quote_telescope(fuel, tables, len + 1, false, next)->Ok_0;
            let all = seq![term] + terms;
            assert(all == quote_telescope(fuel, tables, len, false, telescope)->Ok_0);
            assert(is_plain(all[0]));
            assert forall|i: int| 0 <= i < terms.len() implies is_plain(#[trigger] terms[i]) by {
                assert(is_plain(all[i + 1]));
            }
            lemma_variables_push(tables.metas, locals);
            lemma_env_push(tables.metas, rest.local_exprs, var);
            let inner = locals.push(var);
            let g0 = lemma_requote(fuel, tables, locals, value);
            let g1 = lemma_requote_telescope(fuel, tables, inner, next);
            let g = larger(g0, g1) + 1;
            lemma_restores_lift(g0, (g - 1) as nat, tables, locals, value, term);
            lemma_restores_lift(g0, g, tables, locals, value, term);
            lemma_quote_telescope_lift(
                g1,
                g,
                tables,
                len + 1,
                TelescopeV { local_exprs: inner, apply_repr: false, terms },
            );
            assert(all.subrange(1, all.len() as int) =~= terms);
            let back = TelescopeV { local_exprs: locals, apply_repr: false, terms: all };
            let back_rest = TelescopeV {
                local_exprs: locals,
                apply_repr: false,
                terms: all.subrange(1, all.len() as int),
            };
            assert(split_telescope(g, tables, back) == Ok::<
                Option<(ArcValueV, TelescopeV)>,
                Stop,
            >(Some((eval(g0, tables, locals, term)->Ok_0, back_rest))));
            assert(resume_telescope(back_rest, var) == TelescopeV {
                local_exprs: inner,
                apply_repr: false,
                terms,
            });
            g
        },
        _ => 0,
    }
}

/// The terms that quotation reads back from settled values, where they are
/// plain, restore as many settled values.
pub proof fn lemma_requote_all(
    fuel: nat,
    tables: TablesV,
    locals: Seq<ArcValueV>,
    values: Seq<ArcValueV>,
    from: int,
) -> (g: nat)
    requires
        are_settled_tables(tables),
        are_variables(locals),
        are_settled(tables.metas, values),
        0 <= from <= values.len(),
        quote_all(fuel, tables, locals.len(), false, values, from) is Ok,
        are_plain(quote_all(fuel, tables, locals.len(), false, values, from)->Ok_0),
    ensures
        restores_all(
            g,
            tables,
            locals,
            (values.len() - from) as nat,
            quote_all(fuel, tables, locals.len(), false, values, from)->Ok_0,
        ),
    decreases fuel, 2nat, values.len() - from,
{
    let len = locals.len();
    if from < values.len() {
        let term = quote(fuel, tables, len, false, values[from])->Ok_0;
        let terms = quote_all(fuel, tables, len, false, values, from + 1)->Ok_0;
        let all = seq![term] + terms;
        assert(is_plain(all[0]));
        assert forall|i: int| 0 <= i < terms.len() implies is_plain(#[trigger] terms[i]) by {
            assert(is_plain(all[i + 1]));
        }
        assert(is_settled(tables.metas, values[from].value));
        let g0 = lemma_requote(fuel, tables, locals, values[from]);
        let g1 = lemma_requote_all(fuel, tables, locals, values, from + 1);
        let g = larger(g0, g1);
        lemma_restores_lift(g0, g, tables, locals, values[from], term);
        lemma_eval_all_lift(g1, g, tables, locals, terms, 0);
        let back = eval(g, tables, locals, term)->Ok_0;
        let backs = eval_all(g1, tables, locals, terms, 0)->Ok_0;
        lemma_quote_all_lift(g1, g, tables, len, backs, 0);
        lemma_eval_all_shift(g, tables, locals, term, terms, 0);
        lemma_quote_all_shift(g, tables, len, back, backs, 0);
        let all_backs = seq![back] + backs;
        assert(eval_all(g, tables, locals, all, 0) == Ok::<Seq<ArcValueV>, Stop>(all_backs));
        assert forall|i: int| 0 <= i < all_backs.len() implies is_settled(
            tables.metas,
            (#[trigger] all_backs[i]).value,
        ) by {
            if i > 0 {
                assert(all_backs[i] == backs[i - 1]);
            }
        }
        assert(all_backs[0] == back);
        g
    } else {
        0
    }
}

/// The terms that quotation reads back from branches over settled values,
/// where they are plain, are read back from their own branches over the
/// variables.
pub proof fn lemma_requote_branches(
    fuel: nat,
    tables: TablesV,
    locals: Seq<ArcValueV>,
    branches: BranchesV,
) -> (g: nat)
    requires
        are_settled_tables(tables),
        are_variables(locals),
        are_settled(tables.metas, branches.local_exprs),
        quote_branches(fuel, tables, locals.len(), false, branches) is Ok,
        are_plain_branches(
            quote_branches(fuel, tables, locals.len(), false, branches)->Ok_0.0,
            quote_branches(fuel, tables, locals.len(), false, branches)->Ok_0.1,
        ),
    ensures
        restores_branches(
            g,
            tables,
            locals,
            quote_branches(fuel, tables, locals.len(), false, branches)->Ok_0.0,
            quote_branches(fuel, tables, locals.len(), false, branches)->Ok_0.1,
        ),
    decreases fuel, 3nat, branches.pattern_branches.len(),
{
    let len = locals.len();
    lemma_split_branches_settled(fuel, tables, branches);
    match split_branches(fuel, tables, branches) {
        Ok(SplitBranchesV::Branch((constant, body), next)) => {
            let term = quote(fuel, tables, len, false, body)->Ok_0;
            let (rest, default_expr) = quote_branches(fuel, tables, len, false, next)->Ok_0;
            let all = seq![(constant, term)] + rest;
            assert(all[0] == (constant, term));
            assert(is_plain(all[0].1));
            assert forall|i: int| 0 <= i < rest.len() implies is_plain((#[trigger] rest[i]).1) by {
                assert(is_plain(all[i + 1].1));
            }
            let g0 = lemma_requote(fuel, tables, locals, body);
            let g1 = lemma_requote_branches(fuel, tables, locals, next);
            let g = larger(g0, g1) + 1;
            lemma_restores_lift(g0, (g - 1) as nat, tables, locals, body, term);
            lemma_restores_lift(g0, g, tables, locals, body, term);
            lemma_quote_branches_lift(
                g1,
                g,
                tables,
                len,
                BranchesV { local_exprs: locals, pattern_branches: rest, default_expr },
            );
            assert(all.subrange(1, all.len() as int) =~= rest);
            g
        },
        Ok(SplitBranchesV::Default(default_expr)) => {
            let g1 = lemma_requote_closure(fuel, tables, locals, default_expr);
            g1
        },
        _ => 0,
    }
}

/// Whether quotation reads an elimination back into plain terms.
pub open spec fn is_ready_elim(fuel: nat, tables: TablesV, len: nat, elim: ElimV) -> bool {
    match elim {
        ElimV::FunApp(arg) => quote(fuel, tables, len, false, arg) is Ok && is_plain(
            quote(fuel, tables, len, false, arg)->Ok_0,
        ),
        ElimV::RecordProj(_) => true,
        ElimV::ConstMatch(branches) => quote_branches(fuel, tables, len, false, branches) is Ok
            && are_plain_branches(
            quote_branches(fuel, tables, len, false, branches)->Ok_0.0,
            quote_branches(fuel, tables, len, false, branches)->Ok_0.1,
        ),
    }
}

/// The elimination that the terms of an elimination evaluate to.
pub open spec fn restored_elim(
    fuel: nat,
    g: nat,
    tables: TablesV,
    locals: Seq<ArcValueV>,
    elim: ElimV,
) -> ElimV {
    match elim {
        ElimV::FunApp(arg) => ElimV::FunApp(
            eval(g, tables, locals, quote(fuel, tables, locals.len(), false, arg)->Ok_0)->Ok_0,
        ),
        ElimV::RecordProj(label) => ElimV::RecordProj(label),
        ElimV::ConstMatch(branches) => ElimV::ConstMatch(
            BranchesV {
                local_exprs: locals,
                pattern_branches: quote_branches(
                    fuel,
                    tables,
                    locals.len(),
                    false,
                    branches,
                )->Ok_0.0,
                default_expr: quote_branches(fuel, tables, locals.len(), false, branches)->Ok_0.1,
            },
        ),
    }
}

/// Whether the terms of an elimination restore it.
pub open spec fn restores_elim(
    fuel: nat,
    g: nat,
    tables: TablesV,
    locals: Seq<ArcValueV>,
    elim: ElimV,
) -> bool {
    match elim {
        ElimV::FunApp(arg) => restores(
            g,
            tables,
            locals,
            arg,
            quote(fuel, tables, locals.len(), false, arg)->Ok_0,
        ),
        ElimV::RecordProj(_) => true,
        ElimV::ConstMatch(branches) => restores_branches(
            g,
            tables,
            locals,
            quote_branches(fuel, tables, locals.len(), false, branches)->Ok_0.0,
            quote_branches(fuel, tables, locals.len(), false, branches)->Ok_0.1,
        ),
    }
}

proof fn lemma_restores_elim_lift(
    fuel: nat,
    g: nat,
    h: nat,
    tables: TablesV,
    locals: Seq<ArcValueV>,
    elim: ElimV,
)
    requires
        g <= h,
        restores_elim(fuel, g, tables, locals, elim),
    ensures
        restores_elim(fuel, h, tables, locals, elim),
        restored_elim(fuel, h, tables, locals, elim) == restored_elim(
            fuel,
            g,
            tables,
            locals,
            elim,
        ),
{
    match elim {
        ElimV::FunApp(arg) => {
            lemma_restores_lift(
                g,
                h,
                tables,
                locals,
                arg,
                quote(fuel, tables, locals.len(), false, arg)->Ok_0,
            );
        },
        ElimV::RecordProj(_) => {},
        ElimV::ConstMatch(branches) => {
            let quoted = quote_branches(fuel, tables, locals.len(), false, branches)->Ok_0;
            lemma_quote_branches_lift(
                g,
                h,
                tables,
                locals.len(),
                BranchesV {
                    local_exprs: locals,
                    pattern_branches: quoted.0,
                    default_expr: quoted.1,
                },
            );
        },
    }
}

/// Where the term of a spine is plain, so are the term that the spine
/// stands around and the terms of its eliminations.
proof fn lemma_spine_ready(
    fuel: nat,
    tables: TablesV,
    len: nat,
    span: Span,
    acc: TermV,
    spine: Seq<ElimV>,
    from: int,
)
    requires
        0 <= from <= spine.len(),
        quote_spine(fuel, tables, len, false, span, acc, spine, from) is Ok,
        is_plain(quote_spine(fuel, tables, len, false, span, acc, spine, from)->Ok_0),
    ensures
        is_plain(acc),
        forall|i: int|
            from <= i < spine.len() ==> is_ready_elim(fuel, tables, len, #[trigger] spine[i]),
        from < spine.len() ==> is_plain(
            quote_elim(fuel, tables, len, false, span, acc, spine[from])->Ok_0,
        ),
    decreases spine.len() - from,
{
    if from < spine.len() {
        let next = quote_elim(fuel, tables, len, false, span, acc, spine[from]);
        assert(next is Ok);
        lemma_spine_ready(fuel, tables, len, span, next->Ok_0, spine, from + 1);
        match spine[from] {
            ElimV::FunApp(arg) => {
                let arg_term = quote(fuel, tables, len, false, arg)->Ok_0;
                assert(next->Ok_0 == TermV::FunApp(span, Box::new(acc), Box::new(arg_term)));
            },
            ElimV::RecordProj(label) => {
                assert(next->Ok_0 == TermV::RecordProj(span, Box::new(acc), label));
            },
            ElimV::ConstMatch(branches) => {
                let quoted = quote_branches(fuel, tables, len, false, branches)->Ok_0;
                assert(next->Ok_0 == TermV::ConstMatch(
                    span,
                    Box::new(acc),
                    quoted.0,
                    match quoted.1 {
                        Some(expr) => Some(Box::new(expr)),
                        None => None,
                    },
                ));
                lemma_plain_terms(next->Ok_0);
            },
        }
    }
}

/// The terms of the eliminations of a spine restore them, within one
/// budget for all.
proof fn lemma_requote_elims(
    fuel: nat,
    tables: TablesV,
    locals: Seq<ArcValueV>,
    spine: Seq<ElimV>,
    upto: int,
) -> (g: nat)
    requires
        are_settled_tables(tables),
        are_variables(locals),
        is_settled_spine(tables.metas, spine),
        0 <= upto <= spine.len(),
        forall|i: int|
            0 <= i < spine.len() ==> is_ready_elim(fuel, tables, locals.len(), #[trigger] spine[i]),
    ensures
        forall|i: int|
            0 <= i < upto ==> restores_elim(fuel, g, tables, locals, #[trigger] spine[i]),
    decreases fuel, 4nat, upto,
{
    if upto == 0 {
        0
    } else {
        let g0 = lemma_requote_elims(fuel, tables, locals, spine, upto - 1);
        let last = spine[upto - 1];
        assert(is_ready_elim(fuel, tables, locals.len(), last));
        assert(is_settled_elim(tables.metas, last));
        let g1 = match last {
            ElimV::FunApp(arg) => lemma_requote(fuel, tables, locals, arg),
            ElimV::RecordProj(_) => 0,
            ElimV::ConstMatch(branches) => lemma_requote_branches(fuel, tables, locals, branches),
        };
        let g = larger(g0, g1);
        assert forall|i: int| 0 <= i < upto implies restores_elim(
            fuel,
            g,
            tables,
            locals,
            #[trigger] spine[i],
        ) by {
            if i < upto - 1 {
                lemma_restores_elim_lift(fuel, g0, g, tables, locals, spine[i]);
            } else {
                lemma_restores_elim_lift(fuel, g1, g, tables, locals, spine[i]);
            }
        }
        g
    }
}

/// A span merged with itself is the span.
proof fn lemma_merge_same(span: Span)
    ensures
        span.spec_merge(span) == span,
{
}

/// The term of a spine evaluates to the stuck value with the restored
/// spine, where the primitive at the head has nothing to compute on it.
proof fn lemma_spine_eval(
    fuel: nat,
    g: nat,
    tables: TablesV,
    locals: Seq<ArcValueV>,
    span: Span,
    head: Head,
    acc: TermV,
    spine: Seq<ElimV>,
    full: Seq<ElimV>,
    from: int,
)
    requires
        0 <= from <= spine.len(),
        spine.len() == full.len(),
        quote_spine(fuel, tables, locals.len(), false, span, acc, spine, from) is Ok,
        forall|i: int|
            0 <= i < spine.len() ==> restores_elim(fuel, g, tables, locals, #[trigger] spine[i]),
        forall|i: int|
            0 <= i < spine.len() ==> #[trigger] full[i] == restored_elim(
                fuel,
                g,
                tables,
                locals,
                spine[i],
            ),
        eval((g + from + 2) as nat, tables, locals, acc) == Ok::<ArcValueV, Stop>(
            spanned(span, ValueV::Stuck(head, full.take(from))),
        ),
        head matches Head::Prim(prim) ==> forall|k: int|
            0 < k <= full.len() ==> is_idle(prim, #[trigger] full.take(k)),
        is_coherent(span, head, spine),
        is_unsearched(head, full),
    ensures
        eval(
            (g + spine.len() + 2) as nat,
            tables,
            locals,
            quote_spine(fuel, tables, locals.len(), false, span, acc, spine, from)->Ok_0,
        ) == Ok::<ArcValueV, Stop>(spanned(span, ValueV::Stuck(head, full))),
    decreases spine.len() - from,
{
    let len = locals.len();
    if from < spine.len() {
        let next = quote_elim(fuel, tables, len, false, span, acc, spine[from])->Ok_0;
        assert(quote_elim(fuel, tables, len, false, span, acc, spine[from]) is Ok);
        lemma_spine_step(fuel, g, tables, locals, span, head, acc, spine, full, from);
        lemma_spine_eval(fuel, g, tables, locals, span, head, next, spine, full, from + 1);
    } else {
        assert(full.take(from) =~= full);
    }
}

/// One elimination more around a term that evaluates to a stuck value
/// gives a term that evaluates to the stuck value with that elimination
/// restored.
proof fn lemma_spine_step(
    fuel: nat,
    g: nat,
    tables: TablesV,
    locals: Seq<ArcValueV>,
    span: Span,
    head: Head,
    acc: TermV,
    spine: Seq<ElimV>,
    full: Seq<ElimV>,
    from: int,
)
    requires
        0 <= from < spine.len(),
        spine.len() == full.len(),
        quote_elim(fuel, tables, locals.len(), false, span, acc, spine[from]) is Ok,
        restores_elim(fuel, g, tables, locals, spine[from]),
        full[from] == restored_elim(fuel, g, tables, locals, spine[from]),
        eval((g + from + 2) as nat, tables, locals, acc) == Ok::<ArcValueV, Stop>(
            spanned(span, ValueV::Stuck(head, full.take(from))),
        ),
        head matches Head::Prim(prim) ==> is_idle(prim, full.take(from + 1)),
        is_coherent(span, head, spine),
        is_unsearched(head, full),
    ensures
        eval(
            (g + from + 3) as nat,
            tables,
            locals,
            quote_elim(fuel, tables, locals.len(), false, span, acc, spine[from])->Ok_0,
        ) == Ok::<ArcValueV, Stop>(spanned(span, ValueV::Stuck(head, full.take(from + 1)))),
{
    let len = locals.len();
    let f = (g + from + 2) as nat;
    let next = quote_elim(fuel, tables, len, false, span, acc, spine[from])->Ok_0;
    let before = spanned(span, ValueV::Stuck(head, full.take(from)));
    let pushed = full.take(from).push(full[from]);
    assert(pushed =~= full.take(from + 1));
    lemma_merge_same(span);
    match spine[from] {
        ElimV::FunApp(arg) => {
            let arg_term = quote(fuel, tables, len, false, arg)->Ok_0;
            assert(next == TermV::FunApp(span, Box::new(acc), Box::new(arg_term)));
            lemma_restores_lift(g, f, tables, locals, arg, arg_term);
            let back_arg = eval(g, tables, locals, arg_term)->Ok_0;
            assert(full[from] == ElimV::FunApp(back_arg));
            assert(g > 0);
            if head == Head::Prim(Prim::FormatRepr) && from == 0 {
                lemma_repr_step((f - 1) as nat, tables, pushed);
                assert(pushed[0] == ElimV::FunApp(back_arg));
                let args = seq![back_arg];
                assert(Seq::new(args.len(), |i: int| ElimV::FunApp(args[i])) =~= pushed);
                assert(stuck_repr(back_arg) == spanned(
                    back_arg.span,
                    ValueV::Stuck(head, pushed),
                ));
                assert(spine[0] == ElimV::FunApp(arg));
                assert(back_arg.span == arg.span);
                assert(fun_app(f, tables, before, back_arg) == Ok::<ArcValueV, Stop>(
                    spanned(back_arg.span, ValueV::Stuck(head, pushed)),
                ));
            } else {
                match head {
                    Head::Prim(prim) => {
                        if from == 3 {
                            assert(pushed =~= full.take(4));
                            assert(pushed[3] == full[3]);
                        }
                        lemma_idle_step((f - 1) as nat, tables, prim, pushed);
                    },
                    _ => {},
                }
                assert(fun_app(f, tables, before, back_arg) == Ok::<ArcValueV, Stop>(
                    spanned(span, ValueV::Stuck(head, pushed)),
                ));
            }
        },
        ElimV::RecordProj(label) => {
            assert(next == TermV::RecordProj(span, Box::new(acc), label));
            assert(record_proj(before, label) == Ok::<ArcValueV, Stop>(
                spanned(span, ValueV::Stuck(head, pushed)),
            ));
        },
        ElimV::ConstMatch(branches) => {
            let quoted = quote_branches(fuel, tables, len, false, branches)->Ok_0;
            let default_expr = match quoted.1 {
                Some(expr) => Some(Box::new(expr)),
                None => None,
            };
            assert(next == TermV::ConstMatch(span, Box::new(acc), quoted.0, default_expr));
            let back_branches = BranchesV {
                local_exprs: locals,
                pattern_branches: quoted.0,
                default_expr: quoted.1,
            };
            assert(const_match(f, tables, before, back_branches) == Ok::<ArcValueV, Stop>(
                spanned(span, ValueV::Stuck(head, pushed)),
            ));
        },
    }
}

/// Quotation reads the restored spine back into the term of the spine.
proof fn lemma_spine_requote(
    fuel: nat,
    g: nat,
    h: nat,
    tables: TablesV,
    locals: Seq<ArcValueV>,
    span: Span,
    acc: TermV,
    spine: Seq<ElimV>,
    full: Seq<ElimV>,
    from: int,
)
    requires
        g <= h,
        0 <= from <= spine.len(),
        spine.len() == full.len(),
        quote_spine(fuel, tables, locals.len(), false, span, acc, spine, from) is Ok,
        forall|i: int|
            0 <= i < spine.len() ==> restores_elim(fuel, g, tables, locals, #[trigger] spine[i]),
        forall|i: int|
            0 <= i < spine.len() ==> #[trigger] full[i] == restored_elim(
                fuel,
                g,
                tables,
                locals,
                spine[i],
            ),
    ensures
        quote_spine(h, tables, locals.len(), false, span, acc, full, from) == quote_spine(
            fuel,
            tables,
            locals.len(),
            false,
            span,
            acc,
            spine,
            from,
        ),
    decreases spine.len() - from,
{
    let len = locals.len();
    if from < spine.len() {
        let next = quote_elim(fuel, tables, len, false, span, acc, spine[from]);
        assert(next is Ok);
        assert(restores_elim(fuel, g, tables, locals, spine[from]));
        assert(full[from] == restored_elim(fuel, g, tables, locals, spine[from]));
        lemma_restores_elim_lift(fuel, g, h, tables, locals, spine[from]);
        assert(quote_elim(h, tables, len, false, span, acc, full[from]) == next);
        lemma_spine_requote(fuel, g, h, tables, locals, span, next->Ok_0, spine, full, from + 1);
    }
}

/// The term of the head of a settled stuck value evaluates to the value
/// without its spine.
proof fn lemma_head_eval(
    g: nat,
    fuel: nat,
    tables: TablesV,
    locals: Seq<ArcValueV>,
    span: Span,
    head: Head,
)
    requires
        g > 0,
        are_variables(locals),
        is_settled_head(tables.metas, head, Seq::empty()),
        quote_head(fuel, tables, locals.len(), false, span, head) is Ok,
    ensures
        eval(
            g,
            tables,
            locals,
            quote_head(fuel, tables, locals.len(), false, span, head)->Ok_0,
        ) == Ok::<ArcValueV, Stop>(spanned(span, ValueV::Stuck(head, Seq::empty()))),
{
    match head {
        Head::Prim(prim) => {
            assert(prim_value(prim, Seq::empty()) == ValueV::Stuck(head, Seq::empty())) by {
                assert(Seq::new(0, |i: int| ElimV::FunApp(Seq::<ArcValueV>::empty()[i]))
                    =~= Seq::<ElimV>::empty());
            }
        },
        Head::LocalVar(level) => {
            let i = level.0 as int;
            assert(locals[i].value == local_var(Level(i as u16)));
        },
        Head::MetaVar(_) => {},
    }
}

/// The term of a spine around a term has the span of the spine, where the
/// term has.
proof fn lemma_spine_span(
    fuel: nat,
    tables: TablesV,
    len: nat,
    span: Span,
    acc: TermV,
    spine: Seq<ElimV>,
    from: int,
)
    requires
        0 <= from <= spine.len(),
        quote_spine(fuel, tables, len, false, span, acc, spine, from) is Ok,
        acc.span() == span,
    ensures
        quote_spine(fuel, tables, len, false, span, acc, spine, from)->Ok_0.span() == span,
    decreases spine.len() - from,
{
    if from < spine.len() {
        let next = quote_elim(fuel, tables, len, false, span, acc, spine[from]);
        assert(next is Ok);
        lemma_spine_span(fuel, tables, len, span, next->Ok_0, spine, from + 1);
    }
}

/// The term that quotation reads back from a settled value has the span of
/// the value.
proof fn lemma_quote_span(fuel: nat, tables: TablesV, len: nat, value: ArcValueV)
    requires
        is_settled(tables.metas, value.value),
        quote(fuel, tables, len, false, value) is Ok,
    ensures
        quote(fuel, tables, len, false, value)->Ok_0.span() == value.span,
{
    let f = (fuel - 1) as nat;
    if f > 0 {
        lemma_force_settled(f, tables, value);
    }
    assert(quote(fuel, tables, len, false, value) == quote_forced(f, tables, len, false, value));
    match value.value {
        ValueV::Stuck(head, spine) => {
            let head_term = quote_head(f, tables, len, false, value.span, head)->Ok_0;
            lemma_spine_span(f, tables, len, value.span, head_term, spine, 0);
        },
        _ => {},
    }
}

/// A spine that is alike one that searches no array literal searches none.
proof fn lemma_unsearched_alike(head: Head, spine: Seq<ElimV>, full: Seq<ElimV>)
    requires
        are_alike_spines(spine, full),
        is_unsearched(head, spine),
    ensures
        is_unsearched(head, full),
{
    if full.len() >= 4 && is_args(full.take(4), 4) {
        assert(are_alike_elims(spine[0], full[0]));
        assert(are_alike_elims(spine[1], full[1]));
        assert(are_alike_elims(spine[2], full[2]));
        assert(are_alike_elims(spine[3], full[3]));
        assert(full.take(4)[0] == full[0]);
        assert(full.take(4)[1] == full[1]);
        assert(full.take(4)[2] == full[2]);
        assert(full.take(4)[3] == full[3]);
        assert(spine.take(4)[0] == spine[0]);
        assert(spine.take(4)[1] == spine[1]);
        assert(spine.take(4)[2] == spine[2]);
        assert(spine.take(4)[3] == spine[3]);
    }
}

/// A settled stuck value whose term is plain keeps its span.
proof fn lemma_coherent(
    fuel: nat,
    tables: TablesV,
    len: nat,
    span: Span,
    head: Head,
    spine: Seq<ElimV>,
)
    requires
        is_settled_spine(tables.metas, spine),
        quote_head(fuel, tables, len, false, span, head) is Ok,
        quote_spine(
            fuel,
            tables,
            len,
            false,
            span,
            quote_head(fuel, tables, len, false, span, head)->Ok_0,
            spine,
            0,
        ) is Ok,
        is_plain(
            quote_spine(
                fuel,
                tables,
                len,
                false,
                span,
                quote_head(fuel, tables, len, false, span, head)->Ok_0,
                spine,
                0,
            )->Ok_0,
        ),
    ensures
        is_coherent(span, head, spine),
{
    let head_term = quote_head(fuel, tables, len, false, span, head)->Ok_0;
    lemma_spine_ready(fuel, tables, len, span, head_term, spine, 0);
    if spine.len() > 0 {
        match spine[0] {
            ElimV::FunApp(arg) => {
                assert(is_settled_elim(tables.metas, spine[0]));
                let arg_term = quote(fuel, tables, len, false, arg)->Ok_0;
                lemma_quote_span(fuel, tables, len, arg);
                assert(quote_elim(fuel, tables, len, false, span, head_term, spine[0])->Ok_0
                    == TermV::FunApp(span, Box::new(head_term), Box::new(arg_term)));
            },
            _ => {},
        }
    }
}

/// A settled stuck value whose term is plain searches no array literal.
proof fn lemma_unsearched(
    fuel: nat,
    tables: TablesV,
    len: nat,
    span: Span,
    head: Head,
    spine: Seq<ElimV>,
)
    requires
        is_settled_spine(tables.metas, spine),
        quote_head(fuel, tables, len, false, span, head) is Ok,
        quote_spine(
            fuel,
            tables,
            len,
            false,
            span,
            quote_head(fuel, tables, len, false, span, head)->Ok_0,
            spine,
            0,
        ) is Ok,
        is_plain(
            quote_spine(
                fuel,
                tables,
                len,
                false,
                span,
                quote_head(fuel, tables, len, false, span, head)->Ok_0,
                spine,
                0,
            )->Ok_0,
        ),
    ensures
        is_unsearched(head, spine),
{
    match head {
        Head::Prim(prim) => {
            if is_array_find(prim) && spine.len() >= 4 && is_args(spine.take(4), 4) {
                assert(spine.take(4)[0] == spine[0]);
                assert(spine.take(4)[1] == spine[1]);
                assert(spine.take(4)[2] == spine[2]);
                assert(spine.take(4)[3] == spine[3]);
                let term0 = TermV::Prim(span, prim);
                let next1 = quote_elim(fuel, tables, len, false, span, term0, spine[0]);
                assert(quote_spine(fuel, tables, len, false, span, term0, spine, 0) == quote_spine(
                    fuel,
                    tables,
                    len,
                    false,
                    span,
                    next1->Ok_0,
                    spine,
                    1,
                ));
                let next2 = quote_elim(fuel, tables, len, false, span, next1->Ok_0, spine[1]);
                assert(quote_spine(fuel, tables, len, false, span, next1->Ok_0, spine, 1)
                    == quote_spine(fuel, tables, len, false, span, next2->Ok_0, spine, 2));
                let next3 = quote_elim(fuel, tables, len, false, span, next2->Ok_0, spine[2]);
                assert(quote_spine(fuel, tables, len, false, span, next2->Ok_0, spine, 2)
                    == quote_spine(fuel, tables, len, false, span, next3->Ok_0, spine, 3));
                lemma_spine_ready(fuel, tables, len, span, next3->Ok_0, spine, 3);
                let array = app_arg(spine[3])->0;
                let array_term = quote(fuel, tables, len, false, array)->Ok_0;
                let next4 = quote_elim(fuel, tables, len, false, span, next3->Ok_0, spine[3]);
                assert(next4->Ok_0 == TermV::FunApp(
                    span,
                    Box::new(next3->Ok_0),
                    Box::new(array_term),
                ));
                assert(is_search(next3->Ok_0));
                assert(!(array_term is ArrayLit));
                assert(is_settled_elim(tables.metas, spine[3]));
                if array.value is ArrayLit {
                    lemma_literal_term(fuel, tables, len, array);
                }
            }
        },
        _ => {},
    }
}

/// The term that quotation reads back from a settled array literal is an
/// array literal.
proof fn lemma_literal_term(fuel: nat, tables: TablesV, len: nat, value: ArcValueV)
    requires
        is_settled(tables.metas, value.value),
        quote(fuel, tables, len, false, value) is Ok,
        value.value is ArrayLit,
    ensures
        quote(fuel, tables, len, false, value)->Ok_0 is ArrayLit,
{
    let f = (fuel - 1) as nat;
    if f > 0 {
        lemma_force_settled(f, tables, value);
    }
    assert(quote(fuel, tables, len, false, value) == quote_forced(f, tables, len, false, value));
}

proof fn lemma_requote_stuck(
    fuel: nat,
    tables: TablesV,
    locals: Seq<ArcValueV>,
    value: ArcValueV,
) -> (g: nat)
    requires
        are_settled_tables(tables),
        are_variables(locals),
        is_settled(tables.metas, value.value),
        value.value is Stuck,
        quote_forced(fuel, tables, locals.len(), false, value) is Ok,
        is_plain(quote_forced(fuel, tables, locals.len(), false, value)->Ok_0),
    ensures
        restores(
            g,
            tables,
            locals,
            value,
            quote_forced(fuel, tables, locals.len(), false, value)->Ok_0,
        ),
    decreases fuel, 10nat, 0nat,
{
    let len = locals.len();
    let metas = tables.metas;
    let span = value.span;
    match value.value {
        ValueV::Stuck(head, spine) => {
            let n = spine.len();
            let head_term = quote_head(fuel, tables, len, false, span, head)->Ok_0;
            let term = quote_spine(fuel, tables, len, false, span, head_term, spine, 0)->Ok_0;
            lemma_stuck_settled(metas, head, spine);
            lemma_spine_ready(fuel, tables, len, span, head_term, spine, 0);
            lemma_coherent(fuel, tables, len, span, head, spine);
            lemma_unsearched(fuel, tables, len, span, head, spine);
            let g = lemma_requote_elims(fuel, tables, locals, spine, n as int);
            let full = Seq::new(n, |i: int| restored_elim(fuel, g, tables, locals, spine[i]));
            lemma_restored_spine(fuel, g, tables, locals, head, spine, full);
            lemma_unsearched_alike(head, spine, full);
            lemma_stuck_settled(metas, head, Seq::empty());
            lemma_head_eval((g + 2) as nat, fuel, tables, locals, span, head);
            assert(full.take(0) =~= Seq::<ElimV>::empty());
            lemma_spine_eval(fuel, g, tables, locals, span, head, head_term, spine, full, 0);
            let h = (g + n + 2) as nat;
            let back = spanned(span, ValueV::Stuck(head, full));
            assert(eval(h, tables, locals, term) == Ok::<ArcValueV, Stop>(back));
            lemma_eval_lift(h, h + 1, tables, locals, term);
            lemma_spine_requote(fuel, g, h, tables, locals, span, head_term, spine, full, 0);
            lemma_force_settled(h, tables, back);
            assert(quote_head(h, tables, len, false, span, head) == Ok::<TermV, Stop>(head_term));
            assert(quote_forced(h, tables, len, false, back) == Ok::<TermV, Stop>(term));
            h + 1
        },
        _ => 0,
    }
}

/// The restored spine of a settled stuck value is alike, holds settled
/// values, and leaves the head at rest.
proof fn lemma_restored_spine(
    fuel: nat,
    g: nat,
    tables: TablesV,
    locals: Seq<ArcValueV>,
    head: Head,
    spine: Seq<ElimV>,
    full: Seq<ElimV>,
)
    requires
        are_variables(locals),
        is_settled_head(tables.metas, head, spine),
        spine.len() == full.len(),
        forall|i: int|
            0 <= i < spine.len() ==> restores_elim(fuel, g, tables, locals, #[trigger] spine[i]),
        forall|i: int|
            0 <= i < spine.len() ==> #[trigger] full[i] == restored_elim(
                fuel,
                g,
                tables,
                locals,
                spine[i],
            ),
    ensures
        is_alike(ValueV::Stuck(head, spine), ValueV::Stuck(head, full)),
        are_alike_spines(spine, full),
        is_settled(tables.metas, ValueV::Stuck(head, full)),
        head matches Head::Prim(prim) ==> forall|k: int|
            0 < k <= full.len() ==> is_idle(prim, #[trigger] full.take(k)),
{
    let metas = tables.metas;
    lemma_variables_settled(metas, locals);
    assert forall|i: int| 0 <= i < spine.len() implies are_alike_elims(
        #[trigger] spine[i],
        full[i],
    ) && is_settled_elim(metas, full[i]) by {
        assert(restores_elim(fuel, g, tables, locals, spine[i]));
        assert(full[i] == restored_elim(fuel, g, tables, locals, spine[i]));
    }
    assert forall|i: int| 0 <= i < spine.len() implies ((#[trigger] spine[i]) is FunApp
        <==> full[i] is FunApp) by {
        assert(are_alike_elims(spine[i], full[i]));
    }
    assert forall|i: int| 0 <= i < full.len() implies is_settled_elim(
        metas,
        #[trigger] full[i],
    ) by {
        assert(are_alike_elims(spine[i], full[i]));
    }
    match head {
        Head::Prim(prim) => {
            assert forall|k: int| 0 < k <= full.len() implies is_idle(
                prim,
                #[trigger] full.take(k),
            ) by {
                let part0 = spine.take(k);
                let part1 = full.take(k);
                assert forall|i: int| 0 <= i < part0.len() implies are_alike_elims(
                    #[trigger] part0[i],
                    part1[i],
                ) by {
                    assert(are_alike_elims(spine[i], full[i]));
                }
                assert(is_idle(prim, spine.take(k)));
                lemma_idle_alike(prim, part0, part1);
            }
        },
        _ => {},
    }
    lemma_stuck_settled(metas, head, full);
}

/// A normal form has a budget within which it normalises to itself. This
/// holds where the items and the solutions of the metavariables are settled,
/// in an environment of variables, and where the normal form is plain.
pub proof fn lemma_normal_form_budget(
    fuel: nat,
    tables: TablesV,
    locals: Seq<ArcValueV>,
    term: TermV,
) -> (g: nat)
    requires
        are_settled_tables(tables),
        are_variables(locals),
        normalise(fuel, tables, locals, term) is Ok,
        is_plain(normalise(fuel, tables, locals, term)->Ok_0),
    ensures
        normalise(g, tables, locals, normalise(fuel, tables, locals, term)->Ok_0) == normalise(
            fuel,
            tables,
            locals,
            term,
        ),
        restores(
            g,
            tables,
            locals,
            eval(fuel, tables, locals, term)->Ok_0,
            normalise(fuel, tables, locals, term)->Ok_0,
        ),
{
    lemma_variables_settled(tables.metas, locals);
    lemma_eval_settled(fuel, tables, locals, term);
    lemma_requote(fuel, tables, locals, eval(fuel, tables, locals, term)->Ok_0)
}

/// Normalisation is idempotent: a normal form normalises to itself, within
/// every budget that lets its normalisation end. This holds where the items
/// and the solutions of the metavariables are settled, in an environment of
/// variables, and where the normal form is plain.
pub proof fn lemma_normalise_idempotent(
    fuel: nat,
    again: nat,
    tables: TablesV,
    locals: Seq<ArcValueV>,
    term: TermV,
)
    requires
        are_settled_tables(tables),
        are_variables(locals),
        normalise(fuel, tables, locals, term) is Ok,
        is_plain(normalise(fuel, tables, locals, term)->Ok_0),
        within_limits(
            normalise(again, tables, locals, normalise(fuel, tables, locals, term)->Ok_0),
        ),
    ensures
        normalise(again, tables, locals, normalise(fuel, tables, locals, term)->Ok_0)
            == normalise(fuel, tables, locals, term),
{
    let normal = normalise(fuel, tables, locals, term)->Ok_0;
    let g = lemma_normal_form_budget(fuel, tables, locals, term);
    if again <= g {
        lemma_normalise_stable(again, (g - again) as nat, tables, locals, normal);
    } else {
        lemma_normalise_stable(g, (again - g) as nat, tables, locals, normal);
    }
}

/// Evaluation is sound: the value of a normal form is convertible to the
/// value of the term that it is the normal form of. A comparison of the
/// two says yes, within every budget that lets it end. This holds where the
/// items and the solutions of the metavariables are settled, in an
/// environment of variables, and where the normal form is plain.
pub proof fn lemma_normal_form_convertible(
    fuel: nat,
    again: nat,
    budget: nat,
    tables: TablesV,
    locals: Seq<ArcValueV>,
    term: TermV,
)
    requires
        are_settled_tables(tables),
        are_variables(locals),
        normalise(fuel, tables, locals, term) is Ok,
        is_plain(normalise(fuel, tables, locals, term)->Ok_0),
        eval(again, tables, locals, normalise(fuel, tables, locals, term)->Ok_0) is Ok,
        within_limits(
            is_equal(
                budget,
                tables,
                locals.len(),
                eval(fuel, tables, locals, term)->Ok_0,
                eval(again, tables, locals, normalise(fuel, tables, locals, term)->Ok_0)->Ok_0,
            ),
        ),
    ensures
        is_equal(
            budget,
            tables,
            locals.len(),
            eval(fuel, tables, locals, term)->Ok_0,
            eval(again, tables, locals, normalise(fuel, tables, locals, term)->Ok_0)->Ok_0,
        ) == Ok::<bool, Stop>(true),
{
    let len = locals.len();
    let normal = normalise(fuel, tables, locals, term)->Ok_0;
    let value = eval(fuel, tables, locals, term)->Ok_0;
    let g = lemma_normal_form_budget(fuel, tables, locals, term);
    let back = eval(g, tables, locals, normal)->Ok_0;
    if again <= g {
        lemma_eval_lift(again, g, tables, locals, normal);
    } else {
        lemma_eval_lift(g, again, tables, locals, normal);
    }
    assert(eval(again, tables, locals, normal)->Ok_0 == back);
    let top = larger(larger(fuel, g), budget);
    lemma_quote_lift(fuel, top, tables, len, value);
    lemma_quote_lift(g, top, tables, len, back);
    lemma_same_quote(top, tables, len, false, value, back);
    lemma_is_equal_stable(budget, (top - budget) as nat, tables, len, value, back);
}

/// The value of a normal form and the value of the term that it is the
/// normal form of have a budget within which their comparison says yes,
/// under the same conditions.
pub proof fn lemma_normal_form_comparison(
    fuel: nat,
    again: nat,
    tables: TablesV,
    locals: Seq<ArcValueV>,
    term: TermV,
) -> (budget: nat)
    requires
        are_settled_tables(tables),
        are_variables(locals),
        normalise(fuel, tables, locals, term) is Ok,
        is_plain(normalise(fuel, tables, locals, term)->Ok_0),
        eval(again, tables, locals, normalise(fuel, tables, locals, term)->Ok_0) is Ok,
    ensures
        is_equal(
            budget,
            tables,
            locals.len(),
            eval(fuel, tables, locals, term)->Ok_0,
            eval(again, tables, locals, normalise(fuel, tables, locals, term)->Ok_0)->Ok_0,
        ) == Ok::<bool, Stop>(true),
{
    let len = locals.len();
    let normal = normalise(fuel, tables, locals, term)->Ok_0;
    let value = eval(fuel, tables, locals, term)->Ok_0;
    let g = lemma_normal_form_budget(fuel, tables, locals, term);
    let back = eval(g, tables, locals, normal)->Ok_0;
    if again <= g {
        lemma_eval_lift(again, g, tables, locals, normal);
    } else {
        lemma_eval_lift(g, again, tables, locals, normal);
    }
    assert(eval(again, tables, locals, normal)->Ok_0 == back);
    let top = larger(fuel, g);
    lemma_quote_lift(fuel, top, tables, len, value);
    lemma_quote_lift(g, top, tables, len, back);
    lemma_same_quote(top, tables, len, false, value, back);
    top
}

} // verus!
