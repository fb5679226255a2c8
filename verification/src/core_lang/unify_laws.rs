//! Unification only adds solutions to the table; where it succeeds without
//! adding one, it has found the two values convertible under the table as
//! it stands; and where it succeeds, it succeeds with the same solutions on
//! the two values in the other order.

use crate::core_lang::laws::{is_forced, lemma_force_is_forced};
use crate::core_lang::model::{
    apply_closure, force, fresh_var, fun_app, is_equal, is_equal_all, is_equal_branches,
    is_equal_closures, is_equal_elims, is_equal_forced, is_equal_fun_lit, is_equal_record_lit,
    is_equal_spines, is_equal_telescopes, is_equal_values, is_reported_error, max_len,
    record_proj, resume_telescope, split_branches, split_telescope, ArcValueV, BranchesV,
    ClosureV, ElimV, Head, SplitBranchesV, Stop, TelescopeV, ValueV,
};
use crate::core_lang::unification::extends;
use crate::core_lang::unify_model::{
    solve, tables, unify, unify_all, unify_branches, unify_closures, unify_elims,
    unify_flexible, unify_forced, unify_fun_lit, unify_record_lit, unify_spines,
    unify_telescopes, unify_values, Failure, MetasV, Unified,
};
use crate::env::Level;
use crate::core_lang::Const;
use crate::symbol::StringId;
use vstd::prelude::*;

verus! {

/// Whether a step of unification was sound as far as it goes: where it
/// succeeded, the table holds every solution that it held before; and where
/// the table is as it was, the comparison of what was unified says yes.
pub open spec fn is_sound(metas: MetasV, unified: Unified, answer: Result<bool, Stop>) -> bool {
    match unified {
        Ok(solved) => extends(metas, solved) && (solved == metas ==> answer == Ok::<bool, Stop>(
            true,
        )),
        Err(_) => true,
    }
}

/// Whether a step of unification added a solution, where it succeeded.
pub open spec fn is_solving(metas: MetasV, unified: Unified) -> bool {
    match unified {
        Ok(solved) => extends(metas, solved) && solved != metas,
        Err(_) => true,
    }
}

/// Whether two values are of the same kind.
pub open spec fn is_same_kind(value0: ValueV, value1: ValueV) -> bool {
    match (value0, value1) {
        (ValueV::Stuck(_, _), ValueV::Stuck(_, _)) => true,
        (ValueV::Universe, ValueV::Universe) => true,
        (ValueV::FunType(_, _, _), ValueV::FunType(_, _, _)) => true,
        (ValueV::FunLit(_, _), ValueV::FunLit(_, _)) => true,
        (ValueV::RecordType(_, _), ValueV::RecordType(_, _)) => true,
        (ValueV::RecordLit(_, _), ValueV::RecordLit(_, _)) => true,
        (ValueV::ArrayLit(_), ValueV::ArrayLit(_)) => true,
        (ValueV::FormatRecord(_, _), ValueV::FormatRecord(_, _)) => true,
        (ValueV::FormatCond(_, _, _), ValueV::FormatCond(_, _, _)) => true,
        (ValueV::FormatOverlap(_, _), ValueV::FormatOverlap(_, _)) => true,
        (ValueV::ConstLit(_), ValueV::ConstLit(_)) => true,
        (_, _) => false,
    }
}

/// A table that extends one that extends a third extends the third; and
/// where it is the third, so is the one between them.
pub proof fn lemma_extends_chain(metas: MetasV, middle: MetasV, after: MetasV)
    requires
        extends(metas, middle),
        extends(middle, after),
    ensures
        extends(metas, after),
        after == metas ==> middle == metas,
{
    assert forall|i: int| 0 <= i < metas.len() && (#[trigger] metas[i]) is Some implies after[i]
        == metas[i] by {
        assert(middle[i] == metas[i]);
    }
    if after == metas {
        assert forall|i: int| 0 <= i < metas.len() implies middle[i] == metas[i] by {
            if metas[i] is None && middle[i] is Some {
                assert(after[i] == middle[i]);
            }
        }
        assert(middle =~= metas);
    }
}

/// Two steps of unification that are sound make a sound step, whose
/// answer is the second answer where the first is yes.
proof fn lemma_sound_chain(
    metas: MetasV,
    first: Unified,
    first_answer: Result<bool, Stop>,
    second: Unified,
    second_answer: Result<bool, Stop>,
)
    requires
        is_sound(metas, first, first_answer),
        first matches Ok(middle) ==> is_sound(middle, second, second_answer),
    ensures
        first matches Ok(middle) ==> (second matches Ok(after) ==> extends(metas, after) && (after
            == metas ==> middle == metas && first_answer == Ok::<bool, Stop>(true)
            && second_answer == Ok::<bool, Stop>(true))),
{
    match (first, second) {
        (Ok(middle), Ok(after)) => {
            lemma_extends_chain(metas, middle, after);
        },
        _ => {},
    }
}

/// Solving a metavariable that has no solution adds one to the table.
pub proof fn lemma_solve(
    fuel: nat,
    items: Seq<ArcValueV>,
    metas: MetasV,
    len: nat,
    meta_var: Level,
    spine: Seq<ElimV>,
    value: ArcValueV,
)
    requires
        meta_var.0 < metas.len() ==> metas[meta_var.0 as int] is None,
    ensures
        is_solving(metas, solve(fuel, items, metas, len, meta_var, spine, value)),
{
    match solve(fuel, items, metas, len, meta_var, spine, value) {
        Ok(solved) => {
            assert(solved[meta_var.0 as int] is Some);
        },
        Err(_) => {},
    }
}

/// Unifying two values of different shapes or heads adds a solution to the
/// table, where it succeeds.
pub proof fn lemma_unify_flexible(
    fuel: nat,
    items: Seq<ArcValueV>,
    metas: MetasV,
    len: nat,
    value0: ArcValueV,
    value1: ArcValueV,
)
    requires
        is_forced(metas, value0),
        is_forced(metas, value1),
    ensures
        is_solving(metas, unify_flexible(fuel, items, metas, len, value0, value1)),
{
    match (value0.value, value1.value) {
        (
            ValueV::Stuck(Head::MetaVar(var0), spine0),
            ValueV::Stuck(Head::MetaVar(var1), spine1),
        ) => {
            if var0.0 >= var1.0 {
                lemma_solve(fuel, items, metas, len, var0, spine0, value1);
            } else {
                lemma_solve(fuel, items, metas, len, var1, spine1, value0);
            }
        },
        (ValueV::Stuck(Head::MetaVar(var), spine), _) => {
            lemma_solve(fuel, items, metas, len, var, spine, value1);
        },
        (_, ValueV::Stuck(Head::MetaVar(var), spine)) => {
            lemma_solve(fuel, items, metas, len, var, spine, value0);
        },
        (_, _) => {},
    }
}

/// Unification only adds solutions to the table; and where it succeeds
/// without adding one, the two values are convertible under the table.
pub proof fn lemma_unify(
    fuel: nat,
    items: Seq<ArcValueV>,
    metas: MetasV,
    len: nat,
    value0: ArcValueV,
    value1: ArcValueV,
)
    ensures
        is_sound(
            metas,
            unify(fuel, items, metas, len, value0, value1),
            is_equal(fuel, tables(items, metas), len, value0, value1),
        ),
    decreases fuel, 0nat, 0nat,
{
    if fuel > 0 {
        let f = (fuel - 1) as nat;
        match (force(f, tables(items, metas), value0), force(f, tables(items, metas), value1)) {
            (Ok(forced0), Ok(forced1)) => {
                lemma_force_is_forced(f, tables(items, metas), value0);
                lemma_force_is_forced(f, tables(items, metas), value1);
                lemma_unify_forced(f, items, metas, len, forced0, forced1);
            },
            _ => {},
        }
    }
}

proof fn lemma_unify_forced(
    fuel: nat,
    items: Seq<ArcValueV>,
    metas: MetasV,
    len: nat,
    value0: ArcValueV,
    value1: ArcValueV,
)
    requires
        is_forced(metas, value0),
        is_forced(metas, value1),
    ensures
        is_sound(
            metas,
            unify_forced(fuel, items, metas, len, value0, value1),
            is_equal_forced(fuel, tables(items, metas), len, value0, value1),
        ),
    decreases fuel, 8nat, 0nat,
{
    if is_reported_error(value0) || is_reported_error(value1) {
    } else if is_same_kind(value0.value, value1.value) {
        match value0.value {
            ValueV::Stuck(_, _) => lemma_unify_stuck(fuel, items, metas, len, value0, value1),
            ValueV::FunType(_, _, _) => lemma_unify_fun_types(
                fuel,
                items,
                metas,
                len,
                value0,
                value1,
            ),
            ValueV::FunLit(_, _) => lemma_unify_fun_lits(fuel, items, metas, len, value0, value1),
            ValueV::RecordType(_, _) => lemma_unify_fields(
                fuel,
                items,
                metas,
                len,
                value0,
                value1,
            ),
            ValueV::FormatRecord(_, _) => lemma_unify_fields(
                fuel,
                items,
                metas,
                len,
                value0,
                value1,
            ),
            ValueV::FormatOverlap(_, _) => lemma_unify_fields(
                fuel,
                items,
                metas,
                len,
                value0,
                value1,
            ),
            ValueV::RecordLit(_, _) => lemma_unify_items(fuel, items, metas, len, value0, value1),
            ValueV::ArrayLit(_) => lemma_unify_items(fuel, items, metas, len, value0, value1),
            ValueV::FormatCond(_, _, _) => lemma_unify_conds(
                fuel,
                items,
                metas,
                len,
                value0,
                value1,
            ),
            ValueV::Universe => lemma_unify_atoms(fuel, items, metas, len, value0, value1),
            ValueV::ConstLit(_) => lemma_unify_atoms(fuel, items, metas, len, value0, value1),
        }
    } else {
        lemma_unify_cross(fuel, items, metas, len, value0, value1);
    }
}

proof fn lemma_unify_stuck(
    fuel: nat,
    items: Seq<ArcValueV>,
    metas: MetasV,
    len: nat,
    value0: ArcValueV,
    value1: ArcValueV,
)
    requires
        is_forced(metas, value0),
        is_forced(metas, value1),
        !is_reported_error(value0),
        !is_reported_error(value1),
        is_same_kind(value0.value, value1.value),
        value0.value is Stuck,
    ensures
        is_sound(
            metas,
            unify_forced(fuel, items, metas, len, value0, value1),
            is_equal_forced(fuel, tables(items, metas), len, value0, value1),
        ),
    decreases fuel, 7nat, 0nat,
{
    match (value0.value, value1.value) {
        (ValueV::Stuck(head0, spine0), ValueV::Stuck(head1, spine1)) => {
            if head0 == head1 {
                if spine0.len() == spine1.len() {
                    lemma_unify_spines(fuel, items, metas, len, spine0, spine1, 0);
                }
            } else {
                lemma_unify_flexible(fuel, items, metas, len, value0, value1);
            }
        },
        (_, _) => {},
    }
}

proof fn lemma_unify_atoms(
    fuel: nat,
    items: Seq<ArcValueV>,
    metas: MetasV,
    len: nat,
    value0: ArcValueV,
    value1: ArcValueV,
)
    requires
        is_forced(metas, value0),
        is_forced(metas, value1),
        !is_reported_error(value0),
        !is_reported_error(value1),
        is_same_kind(value0.value, value1.value),
        value0.value is Universe || value0.value is ConstLit,
    ensures
        is_sound(
            metas,
            unify_forced(fuel, items, metas, len, value0, value1),
            is_equal_forced(fuel, tables(items, metas), len, value0, value1),
        ),
    decreases fuel, 7nat, 0nat,
{
    match (value0.value, value1.value) {
        (ValueV::Universe, ValueV::Universe) => {},
        (ValueV::ConstLit(_), ValueV::ConstLit(_)) => {},
        (_, _) => {},
    }
}

proof fn lemma_unify_fun_types(
    fuel: nat,
    items: Seq<ArcValueV>,
    metas: MetasV,
    len: nat,
    value0: ArcValueV,
    value1: ArcValueV,
)
    requires
        is_forced(metas, value0),
        is_forced(metas, value1),
        !is_reported_error(value0),
        !is_reported_error(value1),
        is_same_kind(value0.value, value1.value),
        value0.value is FunType,
    ensures
        is_sound(
            metas,
            unify_forced(fuel, items, metas, len, value0, value1),
            is_equal_forced(fuel, tables(items, metas), len, value0, value1),
        ),
    decreases fuel, 7nat, 0nat,
{
    match (value0.value, value1.value) {
        (
            ValueV::FunType(_, param_type0, body_type0),
            ValueV::FunType(_, param_type1, body_type1),
        ) => {
            let first = unify(fuel, items, metas, len, *param_type0, *param_type1);
            lemma_unify(fuel, items, metas, len, *param_type0, *param_type1);
            match first {
                Ok(middle) => {
                    lemma_unify_closures(fuel, items, middle, len, body_type0, body_type1);
                    lemma_sound_chain(
                        metas,
                        first,
                        is_equal(fuel, tables(items, metas), len, *param_type0, *param_type1),
                        unify_closures(fuel, items, middle, len, body_type0, body_type1),
                        is_equal_closures(fuel, tables(items, middle), len, body_type0, body_type1),
                    );
                },
                Err(_) => {},
            }
        },
        (_, _) => {},
    }
}

proof fn lemma_unify_conds(
    fuel: nat,
    items: Seq<ArcValueV>,
    metas: MetasV,
    len: nat,
    value0: ArcValueV,
    value1: ArcValueV,
)
    requires
        is_forced(metas, value0),
        is_forced(metas, value1),
        !is_reported_error(value0),
        !is_reported_error(value1),
        is_same_kind(value0.value, value1.value),
        value0.value is FormatCond,
    ensures
        is_sound(
            metas,
            unify_forced(fuel, items, metas, len, value0, value1),
            is_equal_forced(fuel, tables(items, metas), len, value0, value1),
        ),
    decreases fuel, 7nat, 0nat,
{
    match (value0.value, value1.value) {
        (ValueV::FormatCond(label0, format0, cond0), ValueV::FormatCond(label1, format1, cond1)) => {
            if label0 == label1 {
            let first = unify(fuel, items, metas, len, *format0, *format1);
            lemma_unify(fuel, items, metas, len, *format0, *format1);
            match first {
                Ok(middle) => {
                    lemma_unify_closures(fuel, items, middle, len, cond0, cond1);
                    lemma_sound_chain(
                        metas,
                        first,
                        is_equal(fuel, tables(items, metas), len, *format0, *format1),
                        unify_closures(fuel, items, middle, len, cond0, cond1),
                        is_equal_closures(fuel, tables(items, middle), len, cond0, cond1),
                    );
                },
                Err(_) => {},
            }
            }
        },
        (_, _) => {},
    }
}

proof fn lemma_unify_fun_lits(
    fuel: nat,
    items: Seq<ArcValueV>,
    metas: MetasV,
    len: nat,
    value0: ArcValueV,
    value1: ArcValueV,
)
    requires
        is_forced(metas, value0),
        is_forced(metas, value1),
        !is_reported_error(value0),
        !is_reported_error(value1),
        is_same_kind(value0.value, value1.value),
        value0.value is FunLit,
    ensures
        is_sound(
            metas,
            unify_forced(fuel, items, metas, len, value0, value1),
            is_equal_forced(fuel, tables(items, metas), len, value0, value1),
        ),
    decreases fuel, 7nat, 0nat,
{
    match (value0.value, value1.value) {
        (ValueV::FunLit(_, body_expr0), ValueV::FunLit(_, body_expr1)) => {
            lemma_unify_closures(fuel, items, metas, len, body_expr0, body_expr1);
        },
        (_, _) => {},
    }
}

proof fn lemma_unify_fields(
    fuel: nat,
    items: Seq<ArcValueV>,
    metas: MetasV,
    len: nat,
    value0: ArcValueV,
    value1: ArcValueV,
)
    requires
        is_forced(metas, value0),
        is_forced(metas, value1),
        !is_reported_error(value0),
        !is_reported_error(value1),
        is_same_kind(value0.value, value1.value),
        value0.value is RecordType || value0.value is FormatRecord || value0.value is FormatOverlap,
    ensures
        is_sound(
            metas,
            unify_forced(fuel, items, metas, len, value0, value1),
            is_equal_forced(fuel, tables(items, metas), len, value0, value1),
        ),
    decreases fuel, 7nat, 0nat,
{
    match (value0.value, value1.value) {
        (ValueV::RecordType(labels0, types0), ValueV::RecordType(labels1, types1)) => {
            if labels0 == labels1 {
                lemma_unify_telescopes(fuel, items, metas, len, types0, types1);
            }
        },
        (ValueV::FormatRecord(labels0, formats0), ValueV::FormatRecord(labels1, formats1)) => {
            if labels0 == labels1 {
                lemma_unify_telescopes(fuel, items, metas, len, formats0, formats1);
            }
        },
        (ValueV::FormatOverlap(labels0, formats0), ValueV::FormatOverlap(labels1, formats1)) => {
            if labels0 == labels1 {
                lemma_unify_telescopes(fuel, items, metas, len, formats0, formats1);
            }
        },
        (_, _) => {},
    }
}

proof fn lemma_unify_items(
    fuel: nat,
    items: Seq<ArcValueV>,
    metas: MetasV,
    len: nat,
    value0: ArcValueV,
    value1: ArcValueV,
)
    requires
        is_forced(metas, value0),
        is_forced(metas, value1),
        !is_reported_error(value0),
        !is_reported_error(value1),
        is_same_kind(value0.value, value1.value),
        value0.value is RecordLit || value0.value is ArrayLit,
    ensures
        is_sound(
            metas,
            unify_forced(fuel, items, metas, len, value0, value1),
            is_equal_forced(fuel, tables(items, metas), len, value0, value1),
        ),
    decreases fuel, 7nat, 0nat,
{
    match (value0.value, value1.value) {
        (ValueV::RecordLit(labels0, exprs0), ValueV::RecordLit(labels1, exprs1)) => {
            if labels0 == labels1 && exprs0.len() == exprs1.len() {
                lemma_unify_all(fuel, items, metas, len, exprs0, exprs1, 0);
            }
        },
        (ValueV::ArrayLit(exprs0), ValueV::ArrayLit(exprs1)) => {
            if exprs0.len() == exprs1.len() {
                lemma_unify_all(fuel, items, metas, len, exprs0, exprs1, 0);
            }
        },
        (_, _) => {},
    }
}

proof fn lemma_unify_cross(
    fuel: nat,
    items: Seq<ArcValueV>,
    metas: MetasV,
    len: nat,
    value0: ArcValueV,
    value1: ArcValueV,
)
    requires
        is_forced(metas, value0),
        is_forced(metas, value1),
        !is_reported_error(value0),
        !is_reported_error(value1),
        !is_same_kind(value0.value, value1.value),
    ensures
        is_sound(
            metas,
            unify_forced(fuel, items, metas, len, value0, value1),
            is_equal_forced(fuel, tables(items, metas), len, value0, value1),
        ),
    decreases fuel, 7nat, 0nat,
{
    match (value0.value, value1.value) {
        (ValueV::FunLit(_, body_expr), _) => {
            lemma_unify_fun_lit(fuel, items, metas, len, body_expr, value1);
        },
        (_, ValueV::FunLit(_, body_expr)) => {
            lemma_unify_fun_lit(fuel, items, metas, len, body_expr, value0);
        },
        (ValueV::RecordLit(labels, exprs), _) => {
            lemma_unify_record_lit(fuel, items, metas, len, labels, exprs, value1, 0);
        },
        (_, ValueV::RecordLit(labels, exprs)) => {
            lemma_unify_record_lit(fuel, items, metas, len, labels, exprs, value0, 0);
        },
        (_, _) => {
            lemma_unify_flexible(fuel, items, metas, len, value0, value1);
        },
    }
}

proof fn lemma_unify_elims(
    fuel: nat,
    items: Seq<ArcValueV>,
    metas: MetasV,
    len: nat,
    elim0: ElimV,
    elim1: ElimV,
)
    ensures
        is_sound(
            metas,
            unify_elims(fuel, items, metas, len, elim0, elim1),
            is_equal_elims(fuel, tables(items, metas), len, elim0, elim1),
        ),
    decreases fuel, 5nat, 0nat,
{
    match (elim0, elim1) {
        (ElimV::FunApp(expr0), ElimV::FunApp(expr1)) => {
            lemma_unify(fuel, items, metas, len, expr0, expr1);
        },
        (ElimV::ConstMatch(branches0), ElimV::ConstMatch(branches1)) => {
            lemma_unify_branches(fuel, items, metas, len, branches0, branches1);
        },
        (_, _) => {},
    }
}

proof fn lemma_unify_spines(
    fuel: nat,
    items: Seq<ArcValueV>,
    metas: MetasV,
    len: nat,
    spine0: Seq<ElimV>,
    spine1: Seq<ElimV>,
    from: int,
)
    ensures
        is_sound(
            metas,
            unify_spines(fuel, items, metas, len, spine0, spine1, from),
            is_equal_spines(fuel, tables(items, metas), len, spine0, spine1, from),
        ),
    decreases fuel, 6nat, spine0.len() - from,
{
    if !(from < 0 || from >= spine0.len() || from >= spine1.len()) {
        let first = unify_elims(fuel, items, metas, len, spine0[from], spine1[from]);
        lemma_unify_elims(fuel, items, metas, len, spine0[from], spine1[from]);
        match first {
            Ok(middle) => {
                lemma_unify_spines(fuel, items, middle, len, spine0, spine1, from + 1);
                lemma_sound_chain(
                    metas,
                    first,
                    is_equal_elims(fuel, tables(items, metas), len, spine0[from], spine1[from]),
                    unify_spines(fuel, items, middle, len, spine0, spine1, from + 1),
                    is_equal_spines(fuel, tables(items, middle), len, spine0, spine1, from + 1),
                );
            },
            Err(_) => {},
        }
    }
}

proof fn lemma_unify_all(
    fuel: nat,
    items: Seq<ArcValueV>,
    metas: MetasV,
    len: nat,
    exprs0: Seq<ArcValueV>,
    exprs1: Seq<ArcValueV>,
    from: int,
)
    ensures
        is_sound(
            metas,
            unify_all(fuel, items, metas, len, exprs0, exprs1, from),
            is_equal_all(fuel, tables(items, metas), len, exprs0, exprs1, from),
        ),
    decreases fuel, 1nat, exprs0.len() - from,
{
    if !(from < 0 || from >= exprs0.len() || from >= exprs1.len()) {
        let first = unify(fuel, items, metas, len, exprs0[from], exprs1[from]);
        lemma_unify(fuel, items, metas, len, exprs0[from], exprs1[from]);
        match first {
            Ok(middle) => {
                lemma_unify_all(fuel, items, middle, len, exprs0, exprs1, from + 1);
                lemma_sound_chain(
                    metas,
                    first,
                    is_equal(fuel, tables(items, metas), len, exprs0[from], exprs1[from]),
                    unify_all(fuel, items, middle, len, exprs0, exprs1, from + 1),
                    is_equal_all(fuel, tables(items, middle), len, exprs0, exprs1, from + 1),
                );
            },
            Err(_) => {},
        }
    }
}

proof fn lemma_unify_closures(
    fuel: nat,
    items: Seq<ArcValueV>,
    metas: MetasV,
    len: nat,
    closure0: ClosureV,
    closure1: ClosureV,
)
    ensures
        is_sound(
            metas,
            unify_closures(fuel, items, metas, len, closure0, closure1),
            is_equal_closures(fuel, tables(items, metas), len, closure0, closure1),
        ),
    decreases fuel, 2nat, 0nat,
{
    match (
        apply_closure(fuel, tables(items, metas), closure0, fresh_var(len)),
        apply_closure(fuel, tables(items, metas), closure1, fresh_var(len)),
    ) {
        (Ok(value0), Ok(value1)) => {
            if len < max_len() {
                lemma_unify(fuel, items, metas, len + 1, value0, value1);
            }
        },
        _ => {},
    }
}

proof fn lemma_unify_fun_lit(
    fuel: nat,
    items: Seq<ArcValueV>,
    metas: MetasV,
    len: nat,
    body_expr: ClosureV,
    value: ArcValueV,
)
    ensures
        is_sound(
            metas,
            unify_fun_lit(fuel, items, metas, len, body_expr, value),
            is_equal_fun_lit(fuel, tables(items, metas), len, body_expr, value),
        ),
    decreases fuel, 2nat, 0nat,
{
    match (
        fun_app(fuel, tables(items, metas), value, fresh_var(len)),
        apply_closure(fuel, tables(items, metas), body_expr, fresh_var(len)),
    ) {
        (Ok(applied), Ok(body)) => {
            if len < max_len() {
                lemma_unify(fuel, items, metas, len + 1, body, applied);
            }
        },
        _ => {},
    }
}

proof fn lemma_unify_record_lit(
    fuel: nat,
    items: Seq<ArcValueV>,
    metas: MetasV,
    len: nat,
    labels: Seq<StringId>,
    exprs: Seq<ArcValueV>,
    value: ArcValueV,
    from: int,
)
    ensures
        is_sound(
            metas,
            unify_record_lit(fuel, items, metas, len, labels, exprs, value, from),
            is_equal_record_lit(fuel, tables(items, metas), len, labels, exprs, value, from),
        ),
    decreases fuel, 1nat, labels.len() - from,
{
    if !(from < 0 || from >= labels.len() || from >= exprs.len()) {
        match record_proj(value, labels[from]) {
            Ok(field) => {
                let first = unify(fuel, items, metas, len, exprs[from], field);
                lemma_unify(fuel, items, metas, len, exprs[from], field);
                match first {
                    Ok(middle) => {
                        lemma_unify_record_lit(
                            fuel,
                            items,
                            middle,
                            len,
                            labels,
                            exprs,
                            value,
                            from + 1,
                        );
                        lemma_sound_chain(
                            metas,
                            first,
                            is_equal(fuel, tables(items, metas), len, exprs[from], field),
                            unify_record_lit(
                                fuel,
                                items,
                                middle,
                                len,
                                labels,
                                exprs,
                                value,
                                from + 1,
                            ),
                            is_equal_record_lit(
                                fuel,
                                tables(items, middle),
                                len,
                                labels,
                                exprs,
                                value,
                                from + 1,
                            ),
                        );
                    },
                    Err(_) => {},
                }
            },
            Err(_) => {},
        }
    }
}

proof fn lemma_unify_telescopes(
    fuel: nat,
    items: Seq<ArcValueV>,
    metas: MetasV,
    len: nat,
    telescope0: TelescopeV,
    telescope1: TelescopeV,
)
    ensures
        is_sound(
            metas,
            unify_telescopes(fuel, items, metas, len, telescope0, telescope1),
            is_equal_telescopes(fuel, tables(items, metas), len, telescope0, telescope1),
        ),
    decreases fuel, 4nat, 0nat,
{
    if telescope0.terms.len() == telescope1.terms.len() {
        lemma_unify_values(fuel, items, metas, len, telescope0, telescope1);
    }
}

proof fn lemma_unify_values(
    fuel: nat,
    items: Seq<ArcValueV>,
    metas: MetasV,
    len: nat,
    telescope0: TelescopeV,
    telescope1: TelescopeV,
)
    ensures
        is_sound(
            metas,
            unify_values(fuel, items, metas, len, telescope0, telescope1),
            is_equal_values(fuel, tables(items, metas), len, telescope0, telescope1),
        ),
    decreases fuel, 3nat, telescope0.terms.len(),
{
    match (
        split_telescope(fuel, tables(items, metas), telescope0),
        split_telescope(fuel, tables(items, metas), telescope1),
    ) {
        (Ok(Some((value0, rest0))), Ok(Some((value1, rest1)))) => {
            let first = unify(fuel, items, metas, len, value0, value1);
            lemma_unify(fuel, items, metas, len, value0, value1);
            match first {
                Ok(middle) => {
                    if len < max_len() {
                        let next0 = resume_telescope(rest0, fresh_var(len));
                        let next1 = resume_telescope(rest1, fresh_var(len));
                        lemma_unify_values(fuel, items, middle, len + 1, next0, next1);
                        lemma_sound_chain(
                            metas,
                            first,
                            is_equal(fuel, tables(items, metas), len, value0, value1),
                            unify_values(fuel, items, middle, len + 1, next0, next1),
                            is_equal_values(fuel, tables(items, middle), len + 1, next0, next1),
                        );
                    }
                },
                Err(_) => {},
            }
        },
        _ => {},
    }
}

proof fn lemma_unify_branches(
    fuel: nat,
    items: Seq<ArcValueV>,
    metas: MetasV,
    len: nat,
    branches0: BranchesV,
    branches1: BranchesV,
)
    ensures
        is_sound(
            metas,
            unify_branches(fuel, items, metas, len, branches0, branches1),
            is_equal_branches(fuel, tables(items, metas), len, branches0, branches1),
        ),
    decreases fuel, 3nat, branches0.pattern_branches.len(),
{
    match (
        split_branches(fuel, tables(items, metas), branches0),
        split_branches(fuel, tables(items, metas), branches1),
    ) {
        (
            Ok(SplitBranchesV::Branch((const0, body0), next0)),
            Ok(SplitBranchesV::Branch((const1, body1), next1)),
        ) => {
            if const0.same(const1) {
                let first = unify(fuel, items, metas, len, body0, body1);
                lemma_unify(fuel, items, metas, len, body0, body1);
                match first {
                    Ok(middle) => {
                        lemma_unify_branches(fuel, items, middle, len, next0, next1);
                        lemma_sound_chain(
                            metas,
                            first,
                            is_equal(fuel, tables(items, metas), len, body0, body1),
                            unify_branches(fuel, items, middle, len, next0, next1),
                            is_equal_branches(fuel, tables(items, middle), len, next0, next1),
                        );
                    },
                    Err(_) => {},
                }
            }
        },
        (Ok(SplitBranchesV::Default(default0)), Ok(SplitBranchesV::Default(default1))) => {
            lemma_unify_closures(fuel, items, metas, len, default0, default1);
        },
        _ => {},
    }
}

/// Unification keeps every solution that the table held.
pub proof fn lemma_unify_extends(
    fuel: nat,
    items: Seq<ArcValueV>,
    metas: MetasV,
    len: nat,
    value0: ArcValueV,
    value1: ArcValueV,
)
    requires
        unify(fuel, items, metas, len, value0, value1) is Ok,
    ensures
        extends(metas, unify(fuel, items, metas, len, value0, value1)->Ok_0),
{
    lemma_unify(fuel, items, metas, len, value0, value1);
}

/// Unification that succeeds without solving a metavariable has found the
/// two values convertible.
pub proof fn lemma_unify_without_solving(
    fuel: nat,
    items: Seq<ArcValueV>,
    metas: MetasV,
    len: nat,
    value0: ArcValueV,
    value1: ArcValueV,
)
    requires
        unify(fuel, items, metas, len, value0, value1) == Ok::<MetasV, Failure>(metas),
    ensures
        is_equal(fuel, tables(items, metas), len, value0, value1) == Ok::<bool, Stop>(true),
{
    lemma_unify(fuel, items, metas, len, value0, value1);
}

/// Two constants are the same whichever comes first.
proof fn lemma_same_symmetric(const0: Const, const1: Const)
    ensures
        const0.same(const1) == const1.same(const0),
{
}

/// Unification is symmetric: where it succeeds on two values, it succeeds on
/// them in the other order, with the same solutions.
pub proof fn lemma_unify_symmetric(
    fuel: nat,
    items: Seq<ArcValueV>,
    metas: MetasV,
    len: nat,
    value0: ArcValueV,
    value1: ArcValueV,
)
    requires
        unify(fuel, items, metas, len, value0, value1) is Ok,
    ensures
        unify(fuel, items, metas, len, value1, value0) == unify(fuel, items, metas, len, value0, value1),
    decreases fuel, 0nat, 0nat,
{
    let f = (fuel - 1) as nat;
    let forced0 = force(f, tables(items, metas), value0)->Ok_0;
    let forced1 = force(f, tables(items, metas), value1)->Ok_0;
    lemma_force_is_forced(f, tables(items, metas), value0);
    lemma_force_is_forced(f, tables(items, metas), value1);
    lemma_forced_symmetric(f, items, metas, len, forced0, forced1);
}

proof fn lemma_forced_symmetric(
    fuel: nat,
    items: Seq<ArcValueV>,
    metas: MetasV,
    len: nat,
    value0: ArcValueV,
    value1: ArcValueV,
)
    requires
        is_forced(metas, value0),
        is_forced(metas, value1),
        unify_forced(fuel, items, metas, len, value0, value1) is Ok,
    ensures
        unify_forced(fuel, items, metas, len, value1, value0) == unify_forced(fuel, items, metas, len, value0, value1),
    decreases fuel, 8nat, 0nat,
{
    if is_reported_error(value0) || is_reported_error(value1) {
    } else if is_same_kind(value0.value, value1.value) {
        match value0.value {
            ValueV::Stuck(_, _) => lemma_stuck_symmetric(fuel, items, metas, len, value0, value1),
            ValueV::FunType(_, _, _) => lemma_fun_types_symmetric(
                fuel,
                items,
                metas,
                len,
                value0,
                value1,
            ),
            ValueV::FunLit(_, _) => lemma_fun_lits_symmetric(
                fuel,
                items,
                metas,
                len,
                value0,
                value1,
            ),
            ValueV::RecordType(_, _) => lemma_fields_symmetric(
                fuel,
                items,
                metas,
                len,
                value0,
                value1,
            ),
            ValueV::FormatRecord(_, _) => lemma_fields_symmetric(
                fuel,
                items,
                metas,
                len,
                value0,
                value1,
            ),
            ValueV::FormatOverlap(_, _) => lemma_fields_symmetric(
                fuel,
                items,
                metas,
                len,
                value0,
                value1,
            ),
            ValueV::RecordLit(_, _) => lemma_items_symmetric(
                fuel,
                items,
                metas,
                len,
                value0,
                value1,
            ),
            ValueV::ArrayLit(_) => lemma_items_symmetric(fuel, items, metas, len, value0, value1),
            ValueV::FormatCond(_, _, _) => lemma_conds_symmetric(
                fuel,
                items,
                metas,
                len,
                value0,
                value1,
            ),
            ValueV::Universe => lemma_atoms_symmetric(fuel, items, metas, len, value0, value1),
            ValueV::ConstLit(_) => lemma_atoms_symmetric(fuel, items, metas, len, value0, value1),
        }
    } else {
        lemma_cross_symmetric(fuel, items, metas, len, value0, value1);
    }
}

proof fn lemma_stuck_symmetric(
    fuel: nat,
    items: Seq<ArcValueV>,
    metas: MetasV,
    len: nat,
    value0: ArcValueV,
    value1: ArcValueV,
)
    requires
        is_forced(metas, value0),
        is_forced(metas, value1),
        !is_reported_error(value0),
        !is_reported_error(value1),
        is_same_kind(value0.value, value1.value),
        value0.value is Stuck,
        unify_forced(fuel, items, metas, len, value0, value1) is Ok,
    ensures
        unify_forced(fuel, items, metas, len, value1, value0) == unify_forced(fuel, items, metas, len, value0, value1),
    decreases fuel, 7nat, 0nat,
{
    match (value0.value, value1.value) {
        (ValueV::Stuck(head0, spine0), ValueV::Stuck(head1, spine1)) => {
            if head0 == head1 {
                if spine0.len() == spine1.len() {
                    lemma_spines_symmetric(fuel, items, metas, len, spine0, spine1, 0);
                }
            } else {
                lemma_flexible_symmetric(fuel, items, metas, len, value0, value1);
            }
        },
        (_, _) => {},
    }
}

proof fn lemma_atoms_symmetric(
    fuel: nat,
    items: Seq<ArcValueV>,
    metas: MetasV,
    len: nat,
    value0: ArcValueV,
    value1: ArcValueV,
)
    requires
        is_forced(metas, value0),
        is_forced(metas, value1),
        !is_reported_error(value0),
        !is_reported_error(value1),
        is_same_kind(value0.value, value1.value),
        value0.value is Universe || value0.value is ConstLit,
        unify_forced(fuel, items, metas, len, value0, value1) is Ok,
    ensures
        unify_forced(fuel, items, metas, len, value1, value0) == unify_forced(fuel, items, metas, len, value0, value1),
    decreases fuel, 7nat, 0nat,
{
    match (value0.value, value1.value) {
        (ValueV::ConstLit(const0), ValueV::ConstLit(const1)) => {
            lemma_same_symmetric(const0, const1);
        },
        (_, _) => {},
    }
}

proof fn lemma_fun_types_symmetric(
    fuel: nat,
    items: Seq<ArcValueV>,
    metas: MetasV,
    len: nat,
    value0: ArcValueV,
    value1: ArcValueV,
)
    requires
        is_forced(metas, value0),
        is_forced(metas, value1),
        !is_reported_error(value0),
        !is_reported_error(value1),
        is_same_kind(value0.value, value1.value),
        value0.value is FunType,
        unify_forced(fuel, items, metas, len, value0, value1) is Ok,
    ensures
        unify_forced(fuel, items, metas, len, value1, value0) == unify_forced(fuel, items, metas, len, value0, value1),
    decreases fuel, 7nat, 0nat,
{
    match (value0.value, value1.value) {
        (
            ValueV::FunType(_, param_type0, body_type0),
            ValueV::FunType(_, param_type1, body_type1),
        ) => {
            lemma_unify_symmetric(fuel, items, metas, len, *param_type0, *param_type1);
            let middle = unify(fuel, items, metas, len, *param_type0, *param_type1)->Ok_0;
            lemma_closures_symmetric(fuel, items, middle, len, body_type0, body_type1);
        },
        (_, _) => {},
    }
}

proof fn lemma_conds_symmetric(
    fuel: nat,
    items: Seq<ArcValueV>,
    metas: MetasV,
    len: nat,
    value0: ArcValueV,
    value1: ArcValueV,
)
    requires
        is_forced(metas, value0),
        is_forced(metas, value1),
        !is_reported_error(value0),
        !is_reported_error(value1),
        is_same_kind(value0.value, value1.value),
        value0.value is FormatCond,
        unify_forced(fuel, items, metas, len, value0, value1) is Ok,
    ensures
        unify_forced(fuel, items, metas, len, value1, value0) == unify_forced(fuel, items, metas, len, value0, value1),
    decreases fuel, 7nat, 0nat,
{
    match (value0.value, value1.value) {
        (ValueV::FormatCond(label0, format0, cond0), ValueV::FormatCond(label1, format1, cond1)) => {
            if label0 == label1 {
            lemma_unify_symmetric(fuel, items, metas, len, *format0, *format1);
            let middle = unify(fuel, items, metas, len, *format0, *format1)->Ok_0;
            lemma_closures_symmetric(fuel, items, middle, len, cond0, cond1);
            }
        },
        (_, _) => {},
    }
}

proof fn lemma_fun_lits_symmetric(
    fuel: nat,
    items: Seq<ArcValueV>,
    metas: MetasV,
    len: nat,
    value0: ArcValueV,
    value1: ArcValueV,
)
    requires
        is_forced(metas, value0),
        is_forced(metas, value1),
        !is_reported_error(value0),
        !is_reported_error(value1),
        is_same_kind(value0.value, value1.value),
        value0.value is FunLit,
        unify_forced(fuel, items, metas, len, value0, value1) is Ok,
    ensures
        unify_forced(fuel, items, metas, len, value1, value0) == unify_forced(fuel, items, metas, len, value0, value1),
    decreases fuel, 7nat, 0nat,
{
    match (value0.value, value1.value) {
        (ValueV::FunLit(_, body_expr0), ValueV::FunLit(_, body_expr1)) => {
            lemma_closures_symmetric(fuel, items, metas, len, body_expr0, body_expr1);
        },
        (_, _) => {},
    }
}

proof fn lemma_fields_symmetric(
    fuel: nat,
    items: Seq<ArcValueV>,
    metas: MetasV,
    len: nat,
    value0: ArcValueV,
    value1: ArcValueV,
)
    requires
        is_forced(metas, value0),
        is_forced(metas, value1),
        !is_reported_error(value0),
        !is_reported_error(value1),
        is_same_kind(value0.value, value1.value),
        value0.value is RecordType || value0.value is FormatRecord || value0.value is FormatOverlap,
        unify_forced(fuel, items, metas, len, value0, value1) is Ok,
    ensures
        unify_forced(fuel, items, metas, len, value1, value0) == unify_forced(fuel, items, metas, len, value0, value1),
    decreases fuel, 7nat, 0nat,
{
    match (value0.value, value1.value) {
        (ValueV::RecordType(labels0, types0), ValueV::RecordType(labels1, types1)) => {
            if labels0 == labels1 {
                lemma_telescopes_symmetric(fuel, items, metas, len, types0, types1);
            }
        },
        (ValueV::FormatRecord(labels0, formats0), ValueV::FormatRecord(labels1, formats1)) => {
            if labels0 == labels1 {
                lemma_telescopes_symmetric(fuel, items, metas, len, formats0, formats1);
            }
        },
        (ValueV::FormatOverlap(labels0, formats0), ValueV::FormatOverlap(labels1, formats1)) => {
            if labels0 == labels1 {
                lemma_telescopes_symmetric(fuel, items, metas, len, formats0, formats1);
            }
        },
        (_, _) => {},
    }
}

proof fn lemma_items_symmetric(
    fuel: nat,
    items: Seq<ArcValueV>,
    metas: MetasV,
    len: nat,
    value0: ArcValueV,
    value1: ArcValueV,
)
    requires
        is_forced(metas, value0),
        is_forced(metas, value1),
        !is_reported_error(value0),
        !is_reported_error(value1),
        is_same_kind(value0.value, value1.value),
        value0.value is RecordLit || value0.value is ArrayLit,
        unify_forced(fuel, items, metas, len, value0, value1) is Ok,
    ensures
        unify_forced(fuel, items, metas, len, value1, value0) == unify_forced(fuel, items, metas, len, value0, value1),
    decreases fuel, 7nat, 0nat,
{
    match (value0.value, value1.value) {
        (ValueV::RecordLit(labels0, exprs0), ValueV::RecordLit(labels1, exprs1)) => {
            if labels0 == labels1 && exprs0.len() == exprs1.len() {
                lemma_all_symmetric(fuel, items, metas, len, exprs0, exprs1, 0);
            }
        },
        (ValueV::ArrayLit(exprs0), ValueV::ArrayLit(exprs1)) => {
            if exprs0.len() == exprs1.len() {
                lemma_all_symmetric(fuel, items, metas, len, exprs0, exprs1, 0);
            }
        },
        (_, _) => {},
    }
}

proof fn lemma_cross_symmetric(
    fuel: nat,
    items: Seq<ArcValueV>,
    metas: MetasV,
    len: nat,
    value0: ArcValueV,
    value1: ArcValueV,
)
    requires
        is_forced(metas, value0),
        is_forced(metas, value1),
        !is_reported_error(value0),
        !is_reported_error(value1),
        !is_same_kind(value0.value, value1.value),
        unify_forced(fuel, items, metas, len, value0, value1) is Ok,
    ensures
        unify_forced(fuel, items, metas, len, value1, value0) == unify_forced(fuel, items, metas, len, value0, value1),
    decreases fuel, 7nat, 0nat,
{
    match (value0.value, value1.value) {
        (ValueV::FunLit(_, _), _) => {},
        (_, ValueV::FunLit(_, _)) => {},
        (ValueV::RecordLit(_, _), _) => {},
        (_, ValueV::RecordLit(_, _)) => {},
        (_, _) => {
            lemma_flexible_symmetric(fuel, items, metas, len, value0, value1);
        },
    }
}

/// Of two values with different heads, the same metavariable is solved
/// whichever comes first.
proof fn lemma_flexible_symmetric(
    fuel: nat,
    items: Seq<ArcValueV>,
    metas: MetasV,
    len: nat,
    value0: ArcValueV,
    value1: ArcValueV,
)
    requires
        !(value0.value matches ValueV::Stuck(head0, _) && value1.value matches ValueV::Stuck(
            head1,
            _,
        ) && head0 == head1),
    ensures
        unify_flexible(fuel, items, metas, len, value1, value0) == unify_flexible(
            fuel,
            items,
            metas,
            len,
            value0,
            value1,
        ),
{
}

proof fn lemma_elims_symmetric(
    fuel: nat,
    items: Seq<ArcValueV>,
    metas: MetasV,
    len: nat,
    elim0: ElimV,
    elim1: ElimV,
)
    requires
        unify_elims(fuel, items, metas, len, elim0, elim1) is Ok,
    ensures
        unify_elims(fuel, items, metas, len, elim1, elim0) == unify_elims(fuel, items, metas, len, elim0, elim1),
    decreases fuel, 5nat, 0nat,
{
    match (elim0, elim1) {
        (ElimV::FunApp(expr0), ElimV::FunApp(expr1)) => {
            lemma_unify_symmetric(fuel, items, metas, len, expr0, expr1);
        },
        (ElimV::ConstMatch(branches0), ElimV::ConstMatch(branches1)) => {
            lemma_branches_symmetric(fuel, items, metas, len, branches0, branches1);
        },
        (_, _) => {},
    }
}

proof fn lemma_spines_symmetric(
    fuel: nat,
    items: Seq<ArcValueV>,
    metas: MetasV,
    len: nat,
    spine0: Seq<ElimV>,
    spine1: Seq<ElimV>,
    from: int,
)
    requires
        spine0.len() == spine1.len(),
        unify_spines(fuel, items, metas, len, spine0, spine1, from) is Ok,
    ensures
        unify_spines(fuel, items, metas, len, spine1, spine0, from) == unify_spines(fuel, items, metas, len, spine0, spine1, from),
    decreases fuel, 6nat, spine0.len() - from,
{
    if !(from < 0 || from >= spine0.len()) {
        lemma_elims_symmetric(fuel, items, metas, len, spine0[from], spine1[from]);
        let middle = unify_elims(fuel, items, metas, len, spine0[from], spine1[from])->Ok_0;
        lemma_spines_symmetric(fuel, items, middle, len, spine0, spine1, from + 1);
    }
}

proof fn lemma_all_symmetric(
    fuel: nat,
    items: Seq<ArcValueV>,
    metas: MetasV,
    len: nat,
    exprs0: Seq<ArcValueV>,
    exprs1: Seq<ArcValueV>,
    from: int,
)
    requires
        exprs0.len() == exprs1.len(),
        unify_all(fuel, items, metas, len, exprs0, exprs1, from) is Ok,
    ensures
        unify_all(fuel, items, metas, len, exprs1, exprs0, from) == unify_all(fuel, items, metas, len, exprs0, exprs1, from),
    decreases fuel, 1nat, exprs0.len() - from,
{
    if !(from < 0 || from >= exprs0.len()) {
        lemma_unify_symmetric(fuel, items, metas, len, exprs0[from], exprs1[from]);
        let middle = unify(fuel, items, metas, len, exprs0[from], exprs1[from])->Ok_0;
        lemma_all_symmetric(fuel, items, middle, len, exprs0, exprs1, from + 1);
    }
}

proof fn lemma_closures_symmetric(
    fuel: nat,
    items: Seq<ArcValueV>,
    metas: MetasV,
    len: nat,
    closure0: ClosureV,
    closure1: ClosureV,
)
    requires
        unify_closures(fuel, items, metas, len, closure0, closure1) is Ok,
    ensures
        unify_closures(fuel, items, metas, len, closure1, closure0) == unify_closures(fuel, items, metas, len, closure0, closure1),
    decreases fuel, 2nat, 0nat,
{
    let value0 = apply_closure(fuel, tables(items, metas), closure0, fresh_var(len))->Ok_0;
    let value1 = apply_closure(fuel, tables(items, metas), closure1, fresh_var(len))->Ok_0;
    lemma_unify_symmetric(fuel, items, metas, len + 1, value0, value1);
}

proof fn lemma_telescopes_symmetric(
    fuel: nat,
    items: Seq<ArcValueV>,
    metas: MetasV,
    len: nat,
    telescope0: TelescopeV,
    telescope1: TelescopeV,
)
    requires
        unify_telescopes(fuel, items, metas, len, telescope0, telescope1) is Ok,
    ensures
        unify_telescopes(fuel, items, metas, len, telescope1, telescope0) == unify_telescopes(fuel, items, metas, len, telescope0, telescope1),
    decreases fuel, 4nat, 0nat,
{
    lemma_values_symmetric(fuel, items, metas, len, telescope0, telescope1);
}

proof fn lemma_values_symmetric(
    fuel: nat,
    items: Seq<ArcValueV>,
    metas: MetasV,
    len: nat,
    telescope0: TelescopeV,
    telescope1: TelescopeV,
)
    requires
        unify_values(fuel, items, metas, len, telescope0, telescope1) is Ok,
    ensures
        unify_values(fuel, items, metas, len, telescope1, telescope0) == unify_values(fuel, items, metas, len, telescope0, telescope1),
    decreases fuel, 3nat, telescope0.terms.len(),
{
    match (
        split_telescope(fuel, tables(items, metas), telescope0),
        split_telescope(fuel, tables(items, metas), telescope1),
    ) {
        (Ok(Some((value0, rest0))), Ok(Some((value1, rest1)))) => {
            lemma_unify_symmetric(fuel, items, metas, len, value0, value1);
            let middle = unify(fuel, items, metas, len, value0, value1)->Ok_0;
            lemma_values_symmetric(
                fuel,
                items,
                middle,
                len + 1,
                resume_telescope(rest0, fresh_var(len)),
                resume_telescope(rest1, fresh_var(len)),
            );
        },
        _ => {},
    }
}

proof fn lemma_branches_symmetric(
    fuel: nat,
    items: Seq<ArcValueV>,
    metas: MetasV,
    len: nat,
    branches0: BranchesV,
    branches1: BranchesV,
)
    requires
        unify_branches(fuel, items, metas, len, branches0, branches1) is Ok,
    ensures
        unify_branches(fuel, items, metas, len, branches1, branches0) == unify_branches(fuel, items, metas, len, branches0, branches1),
    decreases fuel, 3nat, branches0.pattern_branches.len(),
{
    match (
        split_branches(fuel, tables(items, metas), branches0),
        split_branches(fuel, tables(items, metas), branches1),
    ) {
        (
            Ok(SplitBranchesV::Branch((const0, body0), next0)),
            Ok(SplitBranchesV::Branch((const1, body1), next1)),
        ) => {
            lemma_same_symmetric(const0, const1);
            lemma_unify_symmetric(fuel, items, metas, len, body0, body1);
            let middle = unify(fuel, items, metas, len, body0, body1)->Ok_0;
            lemma_branches_symmetric(fuel, items, middle, len, next0, next1);
        },
        (Ok(SplitBranchesV::Default(default0)), Ok(SplitBranchesV::Default(default1))) => {
            lemma_closures_symmetric(fuel, items, metas, len, default0, default1);
        },
        _ => {},
    }
}

} // verus!
