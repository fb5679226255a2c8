//! Laws of the semantics, proved of the model that the contracts of the
//! executable functions are stated over.

use crate::core_lang::budget::{lemma_apply_closure_stable, lemma_fun_app_stable};
use crate::core_lang::model::{apply_closure, atomic_repr, eval, force, force_step, format_repr, fresh_var, fun_app, is_equal, is_equal_all, is_equal_branches, is_equal_closures, is_equal_elims, is_equal_forced, is_equal_fun_lit, is_equal_record_lit, is_equal_spines, is_equal_telescopes, is_equal_values, is_reported_error, label_position, max_len, merged_result, prim_repr, prim_value, record_proj, resume_telescope, spanned, split_branches, split_telescope, ArcValueV, BranchesV, ClosureV, ElimV, Head, SplitBranchesV, Stop, TablesV, TelescopeV, ValueV};
use crate::core_lang::{Const, Prim, TermV};
use crate::env::Index;
use crate::source::Span;
use crate::symbol::StringId;
use vstd::prelude::*;

verus! {

/// The representation of a format that is a primitive for an integer, a
/// float, a stream position or a failure is the type of the values of that
/// primitive: that of `FormatU8` is `U8Type`, that of `FormatU16Be` and of
/// `FormatU16Le` is `U16Type`, and so on, as `atomic_repr` lists them.
pub proof fn lemma_atomic_format_repr(fuel: nat, tables: TablesV, span: Span, prim: Prim)
    requires
        fuel > 0,
        atomic_repr(prim) is Some,
    ensures
        format_repr(fuel, tables, spanned(span, prim_value(prim, Seq::empty()))) == Ok::<_, Stop>(
            spanned(span, prim_value(atomic_repr(prim)->0, Seq::empty())),
        ),
        atomic_repr(Prim::FormatU8) == Some(Prim::U8Type),
        atomic_repr(Prim::FormatU16Be) == Some(Prim::U16Type),
        atomic_repr(Prim::FormatU16Le) == Some(Prim::U16Type),
        atomic_repr(Prim::FormatU32Be) == Some(Prim::U32Type),
        atomic_repr(Prim::FormatU32Le) == Some(Prim::U32Type),
        atomic_repr(Prim::FormatU64Be) == Some(Prim::U64Type),
        atomic_repr(Prim::FormatU64Le) == Some(Prim::U64Type),
        atomic_repr(Prim::FormatS8) == Some(Prim::S8Type),
        atomic_repr(Prim::FormatS16Be) == Some(Prim::S16Type),
        atomic_repr(Prim::FormatS16Le) == Some(Prim::S16Type),
        atomic_repr(Prim::FormatS32Be) == Some(Prim::S32Type),
        atomic_repr(Prim::FormatS32Le) == Some(Prim::S32Type),
        atomic_repr(Prim::FormatS64Be) == Some(Prim::S64Type),
        atomic_repr(Prim::FormatS64Le) == Some(Prim::S64Type),
        atomic_repr(Prim::FormatStreamPos) == Some(Prim::PosType),
        atomic_repr(Prim::FormatFail) == Some(Prim::VoidType),
{
    let format = spanned(span, prim_value(prim, Seq::empty()));
    let spine = Seq::new(0, |i: int| ElimV::FunApp(Seq::<ArcValueV>::empty()[i]));
    assert(format.value == ValueV::Stuck(Head::Prim(prim), spine));
    assert(prim_repr((fuel - 1) as nat, tables, format, prim, spine) == Ok::<_, Stop>(
        spanned(span, prim_value(atomic_repr(prim)->0, Seq::empty())),
    ));
}

/// Whether the head of a value is no metavariable that has a solution.
pub open spec fn is_forced(metas: Seq<Option<ArcValueV>>, value: ArcValueV) -> bool {
    value.value matches ValueV::Stuck(Head::MetaVar(var), _) ==> var.0 < metas.len()
        && metas[var.0 as int] is None
}

/// What forcing yields is forced.
pub proof fn lemma_force_is_forced(fuel: nat, tables: TablesV, value: ArcValueV)
    requires
        force(fuel, tables, value) is Ok,
    ensures
        is_forced(tables.metas, force(fuel, tables, value)->Ok_0),
    decreases fuel,
{
    if fuel > 0 {
        match force_step((fuel - 1) as nat, tables, value) {
            Ok(Some(next)) => {
                lemma_force_is_forced((fuel - 1) as nat, tables, next);
            },
            _ => {},
        }
    }
}

/// Forcing leaves a value that is forced as it is.
pub proof fn lemma_force_rigid(fuel: nat, tables: TablesV, value: ArcValueV)
    requires
        fuel > 0,
        is_forced(tables.metas, value),
    ensures
        force(fuel, tables, value) == Ok::<_, Stop>(value),
{
}

/// A reported error is equal to every value, on either side: whenever the
/// other value can be forced, the comparison says yes.
pub proof fn lemma_reported_error_absorbs(
    fuel: nat,
    tables: TablesV,
    len: nat,
    error: ArcValueV,
    value: ArcValueV,
)
    requires
        fuel > 0,
        is_reported_error(error),
        force((fuel - 1) as nat, tables, value) is Ok,
    ensures
        is_equal(fuel, tables, len, error, value) == Ok::<_, Stop>(true),
        is_equal(fuel, tables, len, value, error) == Ok::<_, Stop>(true),
{
    let f = (fuel - 1) as nat;
    assert(f > 0);
    lemma_force_rigid(f, tables, error);
}

/// A constant is the same as itself.
pub proof fn lemma_const_same(constant: Const)
    ensures
        constant.same(constant),
{
}

/// Whether a comparison did not say no: it said yes, or it did not end.
pub open spec fn not_unequal(answer: Result<bool, Stop>) -> bool {
    answer != Ok::<bool, Stop>(false)
}

/// Forcing does not look at the span of a value.
proof fn lemma_force_step_span(fuel: nat, tables: TablesV, value0: ArcValueV, value1: ArcValueV)
    requires
        value0.value == value1.value,
    ensures
        force_step(fuel, tables, value0) == force_step(fuel, tables, value1),
{
}

/// Every value is equal to itself: a comparison of a value with itself
/// never says no.
pub proof fn lemma_is_equal_reflexive(fuel: nat, tables: TablesV, len: nat, value: ArcValueV)
    ensures
        not_unequal(is_equal(fuel, tables, len, value, value)),
    decreases fuel, 0nat, 0nat,
{
    if fuel > 0 {
        let f = (fuel - 1) as nat;
        match force(f, tables, value) {
            Ok(forced) => {
                lemma_forced_reflexive(f, tables, len, forced, forced);
            },
            Err(_) => {},
        }
    }
}

/// Two values that differ in their spans only are equal: a comparison of
/// them never says no.
pub proof fn lemma_is_equal_same(
    fuel: nat,
    tables: TablesV,
    len: nat,
    value0: ArcValueV,
    value1: ArcValueV,
)
    requires
        value0.value == value1.value,
    ensures
        not_unequal(is_equal(fuel, tables, len, value0, value1)),
    decreases fuel, 7nat, 0nat,
{
    if fuel > 0 {
        let f = (fuel - 1) as nat;
        if f > 0 {
            lemma_force_step_span((f - 1) as nat, tables, value0, value1);
            match force_step((f - 1) as nat, tables, value0) {
                Ok(Some(next)) => {
                    match force((f - 1) as nat, tables, next) {
                        Ok(forced) => {
                            lemma_forced_reflexive(f, tables, len, forced, forced);
                        },
                        Err(_) => {},
                    }
                },
                Ok(None) => {
                    lemma_forced_reflexive(f, tables, len, value0, value1);
                },
                Err(_) => {},
            }
        }
    }
}

proof fn lemma_forced_reflexive(
    fuel: nat,
    tables: TablesV,
    len: nat,
    value0: ArcValueV,
    value1: ArcValueV,
)
    requires
        value0.value == value1.value,
    ensures
        not_unequal(is_equal_forced(fuel, tables, len, value0, value1)),
    decreases fuel, 6nat, 0nat,
{
    if is_reported_error(value0) || is_reported_error(value1) {
    } else {
        match value0.value {
            ValueV::Stuck(_, spine) => {
                lemma_spines_reflexive(fuel, tables, len, spine, 0);
            },
            ValueV::Universe => {},
            ValueV::FunType(_, param_type, body_type) => {
                lemma_is_equal_reflexive(fuel, tables, len, *param_type);
                lemma_closures_reflexive(fuel, tables, len, body_type);
            },
            ValueV::FunLit(_, body_expr) => {
                lemma_closures_reflexive(fuel, tables, len, body_expr);
            },
            ValueV::RecordType(_, types) => {
                lemma_values_reflexive(fuel, tables, len, types);
            },
            ValueV::RecordLit(_, exprs) => {
                lemma_all_reflexive(fuel, tables, len, exprs, 0);
            },
            ValueV::ArrayLit(exprs) => {
                lemma_all_reflexive(fuel, tables, len, exprs, 0);
            },
            ValueV::FormatRecord(_, formats) => {
                lemma_values_reflexive(fuel, tables, len, formats);
            },
            ValueV::FormatCond(_, format, cond) => {
                lemma_is_equal_reflexive(fuel, tables, len, *format);
                lemma_closures_reflexive(fuel, tables, len, cond);
            },
            ValueV::FormatOverlap(_, formats) => {
                lemma_values_reflexive(fuel, tables, len, formats);
            },
            ValueV::ConstLit(constant) => {
                lemma_const_same(constant);
            },
        }
    }
}

proof fn lemma_spines_reflexive(
    fuel: nat,
    tables: TablesV,
    len: nat,
    spine: Seq<ElimV>,
    from: int,
)
    ensures
        not_unequal(is_equal_spines(fuel, tables, len, spine, spine, from)),
    decreases fuel, 5nat, spine.len() - from,
{
    if 0 <= from < spine.len() {
        match spine[from] {
            ElimV::FunApp(arg) => {
                lemma_is_equal_reflexive(fuel, tables, len, arg);
            },
            ElimV::RecordProj(_) => {},
            ElimV::ConstMatch(branches) => {
                lemma_branches_reflexive(fuel, tables, len, branches);
            },
        }
        assert(not_unequal(is_equal_elims(fuel, tables, len, spine[from], spine[from])));
        lemma_spines_reflexive(fuel, tables, len, spine, from + 1);
    }
}

proof fn lemma_all_reflexive(
    fuel: nat,
    tables: TablesV,
    len: nat,
    exprs: Seq<ArcValueV>,
    from: int,
)
    ensures
        not_unequal(is_equal_all(fuel, tables, len, exprs, exprs, from)),
    decreases fuel, 1nat, exprs.len() - from,
{
    if 0 <= from < exprs.len() {
        lemma_is_equal_reflexive(fuel, tables, len, exprs[from]);
        lemma_all_reflexive(fuel, tables, len, exprs, from + 1);
    }
}

proof fn lemma_closures_reflexive(fuel: nat, tables: TablesV, len: nat, closure: ClosureV)
    ensures
        not_unequal(is_equal_closures(fuel, tables, len, closure, closure)),
    decreases fuel, 2nat, 0nat,
{
    match apply_closure(fuel, tables, closure, fresh_var(len)) {
        Ok(value) => {
            if len < max_len() {
                lemma_is_equal_reflexive(fuel, tables, len + 1, value);
            }
        },
        Err(_) => {},
    }
}

proof fn lemma_values_reflexive(fuel: nat, tables: TablesV, len: nat, telescope: TelescopeV)
    ensures
        not_unequal(is_equal_values(fuel, tables, len, telescope, telescope)),
        not_unequal(is_equal_telescopes(fuel, tables, len, telescope, telescope)),
    decreases fuel, 1nat, telescope.terms.len(),
{
    match split_telescope(fuel, tables, telescope) {
        Ok(Some((value, rest))) => {
            lemma_is_equal_reflexive(fuel, tables, len, value);
            if len < max_len() {
                lemma_values_reflexive(
                    fuel,
                    tables,
                    len + 1,
                    resume_telescope(rest, fresh_var(len)),
                );
            }
        },
        _ => {},
    }
}

proof fn lemma_branches_reflexive(fuel: nat, tables: TablesV, len: nat, branches: BranchesV)
    ensures
        not_unequal(is_equal_branches(fuel, tables, len, branches, branches)),
    decreases fuel, 3nat, branches.pattern_branches.len(),
{
    match split_branches(fuel, tables, branches) {
        Ok(SplitBranchesV::Branch((constant, body), next)) => {
            lemma_const_same(constant);
            lemma_is_equal_reflexive(fuel, tables, len, body);
            lemma_branches_reflexive(fuel, tables, len, next);
        },
        Ok(SplitBranchesV::Default(default_expr)) => {
            lemma_closures_reflexive(fuel, tables, len, default_expr);
        },
        _ => {},
    }
}

/// The function literal `fun x => f x`, closed over the value `f`.
pub open spec fn eta_function(f: ArcValueV) -> ValueV {
    ValueV::FunLit(
        None,
        ClosureV {
            local_exprs: seq![f],
            term: TermV::FunApp(
                Span::Empty,
                Box::new(TermV::LocalVar(Span::Empty, Index(1))),
                Box::new(TermV::LocalVar(Span::Empty, Index(0))),
            ),
        },
    )
}

/// The record literal `{ l = r.l, .. }` of the projections of the given
/// labels from the value `r`.
pub open spec fn eta_record(labels: Seq<StringId>, r: ArcValueV) -> ValueV {
    ValueV::RecordLit(labels, Seq::new(labels.len(), |i: int| record_proj(r, labels[i])->Ok_0))
}

/// The application of a function looks at the span of the function only to
/// hand it on: two functions that differ in their spans only give results
/// that differ in their spans only.
proof fn lemma_fun_app_span(
    fuel: nat,
    tables: TablesV,
    head0: ArcValueV,
    head1: ArcValueV,
    arg: ArcValueV,
)
    requires
        head0.value == head1.value,
    ensures
        match fun_app(fuel, tables, head0, arg) {
            Ok(applied0) => (fun_app(fuel, tables, head1, arg) matches Ok(applied1)
                && applied0.value == applied1.value),
            Err(stop) => fun_app(fuel, tables, head1, arg) == Err::<ArcValueV, _>(stop),
        },
{
}

/// The eta law of functions: a value `f` that is forced is equal to
/// `fun x => f x`. A comparison of the two, in either order, never says no.
pub proof fn lemma_eta_function(fuel: nat, tables: TablesV, len: nat, span: Span, f: ArcValueV)
    requires
        is_forced(tables.metas, f),
    ensures
        not_unequal(is_equal(fuel, tables, len, spanned(span, eta_function(f)), f)),
        not_unequal(is_equal(fuel, tables, len, f, spanned(span, eta_function(f)))),
{
    let expansion = spanned(span, eta_function(f));
    if fuel > 1 {
        let f1 = (fuel - 1) as nat;
        lemma_force_rigid(f1, tables, expansion);
        lemma_force_rigid(f1, tables, f);
        let body_expr = eta_function(f)->FunLit_1;
        if is_reported_error(f) {
        } else {
            match f.value {
                ValueV::FunLit(_, other) => {
                    assert(is_equal_forced(f1, tables, len, expansion, f) == is_equal_closures(
                        f1,
                        tables,
                        len,
                        body_expr,
                        other,
                    ));
                    assert(is_equal_forced(f1, tables, len, f, expansion) == is_equal_closures(
                        f1,
                        tables,
                        len,
                        other,
                        body_expr,
                    ));
                    lemma_eta_function_literal(f1, tables, len, f);
                },
                _ => {
                    assert(is_equal_forced(f1, tables, len, expansion, f) == is_equal_fun_lit(
                        f1,
                        tables,
                        len,
                        body_expr,
                        f,
                    ));
                    assert(is_equal_forced(f1, tables, len, f, expansion) == is_equal_fun_lit(
                        f1,
                        tables,
                        len,
                        body_expr,
                        f,
                    ));
                    lemma_eta_function_body(f1, tables, len, f);
                },
            }
        }
    }
}

/// What the body of `fun x => f x` evaluates to on a fresh variable: the
/// application of `f` to the variable, two steps further in.
proof fn lemma_eta_body(fuel: nat, tables: TablesV, len: nat, f: ArcValueV)
    requires
        fuel > 0,
    ensures
        match apply_closure(fuel, tables, eta_function(f)->FunLit_1, fresh_var(len)) {
            Ok(body) => fuel > 2 && (fun_app(
                (fuel - 2) as nat,
                tables,
                spanned(Span::Empty, f.value),
                fresh_var(len),
            ) matches Ok(applied) && body.value == applied.value),
            Err(_) => true,
        },
{
    let body_expr = eta_function(f)->FunLit_1;
    let var = fresh_var(len);
    let locals = seq![f].push(var);
    if fuel > 2 {
        let f2 = (fuel - 2) as nat;
        assert(eval(f2, tables, locals, TermV::LocalVar(Span::Empty, Index(1))) == Ok::<_, Stop>(
            spanned(Span::Empty, f.value),
        ));
        assert(eval(f2, tables, locals, TermV::LocalVar(Span::Empty, Index(0))) == Ok::<_, Stop>(
            var,
        ));
        let body = eval((fuel - 1) as nat, tables, locals, body_expr.term);
        assert(body == merged_result(
            Span::Empty,
            fun_app(f2, tables, spanned(Span::Empty, f.value), var),
        ));
        assert(apply_closure(fuel, tables, body_expr, var) == body);
    } else {
        assert(apply_closure(fuel, tables, body_expr, var) is Err) by {
            if fuel == 2 {
                assert(eval(0, tables, locals, TermV::LocalVar(Span::Empty, Index(1))) is Err);
                assert(eval(1, tables, locals, body_expr.term) is Err);
            } else {
                assert(eval(0, tables, locals, body_expr.term) is Err);
            }
        }
    }
}

proof fn lemma_eta_function_body(fuel: nat, tables: TablesV, len: nat, f: ArcValueV)
    requires
        fuel > 0,
    ensures
        not_unequal(is_equal_fun_lit(fuel, tables, len, eta_function(f)->FunLit_1, f)),
{
    let body_expr = eta_function(f)->FunLit_1;
    let var = fresh_var(len);
    lemma_eta_body(fuel, tables, len, f);
    match apply_closure(fuel, tables, body_expr, var) {
        Ok(body) => {
            let f2 = (fuel - 2) as nat;
            lemma_fun_app_span(f2, tables, spanned(Span::Empty, f.value), f, var);
            lemma_fun_app_stable(f2, 2, tables, f, var);
            let applied = fun_app(fuel, tables, f, var)->Ok_0;
            if len < max_len() {
                lemma_is_equal_same(fuel, tables, len + 1, body, applied);
            }
        },
        Err(_) => {},
    }
}

proof fn lemma_eta_function_literal(fuel: nat, tables: TablesV, len: nat, f: ArcValueV)
    requires
        fuel > 0,
        f.value is FunLit,
    ensures
        not_unequal(
            is_equal_closures(
                fuel,
                tables,
                len,
                eta_function(f)->FunLit_1,
                f.value->FunLit_1,
            ),
        ),
        not_unequal(
            is_equal_closures(
                fuel,
                tables,
                len,
                f.value->FunLit_1,
                eta_function(f)->FunLit_1,
            ),
        ),
{
    let body_expr = eta_function(f)->FunLit_1;
    let other = f.value->FunLit_1;
    let var = fresh_var(len);
    lemma_eta_body(fuel, tables, len, f);
    match apply_closure(fuel, tables, body_expr, var) {
        Ok(body) => {
            let f2 = (fuel - 2) as nat;
            let inner = fun_app(f2, tables, spanned(Span::Empty, f.value), var);
            assert(inner == apply_closure((f2 - 1) as nat, tables, other, var));
            lemma_apply_closure_stable((f2 - 1) as nat, 3, tables, other, var);
            let applied = apply_closure(fuel, tables, other, var)->Ok_0;
            if len < max_len() {
                lemma_is_equal_same(fuel, tables, len + 1, body, applied);
                lemma_is_equal_same(fuel, tables, len + 1, applied, body);
            }
        },
        Err(_) => {},
    }
}

/// Whether the record law speaks of a value: it is stuck and forced, or it
/// is a record literal with the given labels, of which none comes twice,
/// and with as many fields.
pub open spec fn is_record_like(metas: Seq<Option<ArcValueV>>, labels: Seq<StringId>, r: ArcValueV) -> bool {
    match r.value {
        ValueV::Stuck(_, _) => is_forced(metas, r),
        ValueV::RecordLit(found, exprs) => found == labels && exprs.len() == labels.len()
            && labels.no_duplicates(),
        _ => false,
    }
}

/// The eta law of records: a value `r` that is stuck and forced, or that
/// is a record literal of the labels `l, ..`, is equal to the record
/// literal `{ l = r.l, .. }` of its projections. A comparison of the two,
/// in either order, never says no.
pub proof fn lemma_eta_record(
    fuel: nat,
    tables: TablesV,
    len: nat,
    span: Span,
    labels: Seq<StringId>,
    r: ArcValueV,
)
    requires
        is_record_like(tables.metas, labels, r),
    ensures
        not_unequal(is_equal(fuel, tables, len, spanned(span, eta_record(labels, r)), r)),
        not_unequal(is_equal(fuel, tables, len, r, spanned(span, eta_record(labels, r)))),
{
    let expansion = spanned(span, eta_record(labels, r));
    if fuel > 1 {
        let f1 = (fuel - 1) as nat;
        lemma_force_rigid(f1, tables, expansion);
        lemma_force_rigid(f1, tables, r);
        let exprs = eta_record(labels, r)->RecordLit_1;
        if is_reported_error(r) {
        } else {
            match r.value {
                ValueV::RecordLit(_, fields) => {
                    assert(exprs =~= fields) by {
                        assert forall|i: int| 0 <= i < labels.len() implies exprs[i]
                            == fields[i] by {
                            lemma_label_position(labels, i, 0);
                        }
                    }
                    lemma_all_reflexive(f1, tables, len, fields, 0);
                },
                _ => {
                    assert(is_equal_forced(f1, tables, len, expansion, r) == is_equal_record_lit(
                        f1,
                        tables,
                        len,
                        labels,
                        exprs,
                        r,
                        0,
                    ));
                    assert(is_equal_forced(f1, tables, len, r, expansion) == is_equal_record_lit(
                        f1,
                        tables,
                        len,
                        labels,
                        exprs,
                        r,
                        0,
                    ));
                    lemma_eta_record_fields(f1, tables, len, labels, r, 0);
                },
            }
        }
    }
}

/// Among labels of which none comes twice, the first position of a label
/// is its position.
proof fn lemma_label_position(labels: Seq<StringId>, i: int, from: int)
    requires
        labels.no_duplicates(),
        0 <= from <= i < labels.len(),
    ensures
        label_position(labels, labels[i], from) == Some(i),
    decreases i - from,
{
    if from < i {
        lemma_label_position(labels, i, from + 1);
    }
}

proof fn lemma_eta_record_fields(
    fuel: nat,
    tables: TablesV,
    len: nat,
    labels: Seq<StringId>,
    r: ArcValueV,
    from: int,
)
    requires
        r.value is Stuck,
    ensures
        not_unequal(
            is_equal_record_lit(
                fuel,
                tables,
                len,
                labels,
                eta_record(labels, r)->RecordLit_1,
                r,
                from,
            ),
        ),
    decreases labels.len() - from,
{
    let exprs = eta_record(labels, r)->RecordLit_1;
    if 0 <= from < labels.len() {
        assert(record_proj(r, labels[from]) == Ok::<_, Stop>(exprs[from]));
        lemma_is_equal_reflexive(fuel, tables, len, exprs[from]);
        lemma_eta_record_fields(fuel, tables, len, labels, r, from + 1);
    }
}

} // verus!
