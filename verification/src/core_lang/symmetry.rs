//! Conversion is symmetric: where the comparison of two values has an
//! answer, their comparison in the other order has the same answer.

use crate::core_lang::model::{
    apply_closure, force, fresh_var, is_equal, is_equal_all, is_equal_branches,
    is_equal_closures, is_equal_elims, is_equal_forced, is_equal_spines, is_equal_telescopes,
    is_equal_values, is_reported_error, max_len, resume_telescope, split_branches,
    split_telescope, ArcValueV, BranchesV, ClosureV, ElimV, SplitBranchesV, Stop, TablesV,
    TelescopeV, ValueV,
};
use crate::core_lang::unify_laws::is_same_kind;
use crate::core_lang::Const;
use vstd::prelude::*;

verus! {

/// Two constants are the same whichever comes first.
proof fn lemma_same_symmetric(const0: Const, const1: Const)
    ensures
        const0.same(const1) == const1.same(const0),
{
}

/// Conversion is symmetric: where the comparison of two values has an
/// answer, their comparison in the other order has the same answer.
pub proof fn lemma_is_equal_symmetric(
    fuel: nat,
    tables: TablesV,
    len: nat,
    value0: ArcValueV,
    value1: ArcValueV,
)
    requires
        is_equal(fuel, tables, len, value0, value1) is Ok,
    ensures
        is_equal(fuel, tables, len, value1, value0) == is_equal(fuel, tables, len, value0, value1),
    decreases fuel, 0nat, 0nat,
{
    let f = (fuel - 1) as nat;
    let forced0 = force(f, tables, value0)->Ok_0;
    let forced1 = force(f, tables, value1)->Ok_0;
    lemma_forced_symmetric(f, tables, len, forced0, forced1);
}

proof fn lemma_forced_symmetric(
    fuel: nat,
    tables: TablesV,
    len: nat,
    value0: ArcValueV,
    value1: ArcValueV,
)
    requires
        is_equal_forced(fuel, tables, len, value0, value1) is Ok,
    ensures
        is_equal_forced(fuel, tables, len, value1, value0) == is_equal_forced(fuel, tables, len, value0, value1),
    decreases fuel, 8nat, 0nat,
{
    if is_reported_error(value0) || is_reported_error(value1) {
    } else if is_same_kind(value0.value, value1.value) {
        match value0.value {
            ValueV::Stuck(_, _) => lemma_stuck_symmetric(fuel, tables, len, value0, value1),
            ValueV::FunType(_, _, _) => lemma_fun_types_symmetric(
                fuel,
                tables,
                len,
                value0,
                value1,
            ),
            ValueV::FunLit(_, _) => lemma_fun_lits_symmetric(fuel, tables, len, value0, value1),
            ValueV::RecordType(_, _) => lemma_fields_symmetric(fuel, tables, len, value0, value1),
            ValueV::FormatRecord(_, _) => lemma_fields_symmetric(
                fuel,
                tables,
                len,
                value0,
                value1,
            ),
            ValueV::FormatOverlap(_, _) => lemma_fields_symmetric(
                fuel,
                tables,
                len,
                value0,
                value1,
            ),
            ValueV::RecordLit(_, _) => lemma_items_symmetric(fuel, tables, len, value0, value1),
            ValueV::ArrayLit(_) => lemma_items_symmetric(fuel, tables, len, value0, value1),
            ValueV::FormatCond(_, _, _) => lemma_conds_symmetric(
                fuel,
                tables,
                len,
                value0,
                value1,
            ),
            ValueV::Universe => lemma_atoms_symmetric(fuel, tables, len, value0, value1),
            ValueV::ConstLit(_) => lemma_atoms_symmetric(fuel, tables, len, value0, value1),
        }
    } else {
        lemma_cross_symmetric(fuel, tables, len, value0, value1);
    }
}

proof fn lemma_stuck_symmetric(
    fuel: nat,
    tables: TablesV,
    len: nat,
    value0: ArcValueV,
    value1: ArcValueV,
)
    requires
        !is_reported_error(value0),
        !is_reported_error(value1),
        is_same_kind(value0.value, value1.value),
        value0.value is Stuck,
        is_equal_forced(fuel, tables, len, value0, value1) is Ok,
    ensures
        is_equal_forced(fuel, tables, len, value1, value0) == is_equal_forced(fuel, tables, len, value0, value1),
    decreases fuel, 7nat, 0nat,
{
    match (value0.value, value1.value) {
        (ValueV::Stuck(head0, spine0), ValueV::Stuck(head1, spine1)) => {
            if head0 == head1 && spine0.len() == spine1.len() {
                lemma_spines_symmetric(fuel, tables, len, spine0, spine1, 0);
            }
        },
        (_, _) => {},
    }
}

proof fn lemma_atoms_symmetric(
    fuel: nat,
    tables: TablesV,
    len: nat,
    value0: ArcValueV,
    value1: ArcValueV,
)
    requires
        !is_reported_error(value0),
        !is_reported_error(value1),
        is_same_kind(value0.value, value1.value),
        value0.value is Universe || value0.value is ConstLit,
        is_equal_forced(fuel, tables, len, value0, value1) is Ok,
    ensures
        is_equal_forced(fuel, tables, len, value1, value0) == is_equal_forced(fuel, tables, len, value0, value1),
    decreases fuel, 7nat, 0nat,
{
    match (value0.value, value1.value) {
        (ValueV::ConstLit(const0), ValueV::ConstLit(const1)) => {
            lemma_same_symmetric(const0, const1);
        },
        (_, _) => {},
    }
}

proof fn lemma_fun_types_symmetric(
    fuel: nat,
    tables: TablesV,
    len: nat,
    value0: ArcValueV,
    value1: ArcValueV,
)
    requires
        !is_reported_error(value0),
        !is_reported_error(value1),
        is_same_kind(value0.value, value1.value),
        value0.value is FunType,
        is_equal_forced(fuel, tables, len, value0, value1) is Ok,
    ensures
        is_equal_forced(fuel, tables, len, value1, value0) == is_equal_forced(fuel, tables, len, value0, value1),
    decreases fuel, 7nat, 0nat,
{
    match (value0.value, value1.value) {
        (
            ValueV::FunType(_, param_type0, body_type0),
            ValueV::FunType(_, param_type1, body_type1),
        ) => {
            lemma_is_equal_symmetric(fuel, tables, len, *param_type0, *param_type1);
            if is_equal(fuel, tables, len, *param_type0, *param_type1) == Ok::<bool, Stop>(true) {
                lemma_closures_symmetric(fuel, tables, len, body_type0, body_type1);
            }
        },
        (_, _) => {},
    }
}

proof fn lemma_conds_symmetric(
    fuel: nat,
    tables: TablesV,
    len: nat,
    value0: ArcValueV,
    value1: ArcValueV,
)
    requires
        !is_reported_error(value0),
        !is_reported_error(value1),
        is_same_kind(value0.value, value1.value),
        value0.value is FormatCond,
        is_equal_forced(fuel, tables, len, value0, value1) is Ok,
    ensures
        is_equal_forced(fuel, tables, len, value1, value0) == is_equal_forced(fuel, tables, len, value0, value1),
    decreases fuel, 7nat, 0nat,
{
    match (value0.value, value1.value) {
        (ValueV::FormatCond(label0, format0, cond0), ValueV::FormatCond(label1, format1, cond1)) => {
            if label0 == label1 {
            lemma_is_equal_symmetric(fuel, tables, len, *format0, *format1);
            if is_equal(fuel, tables, len, *format0, *format1) == Ok::<bool, Stop>(true) {
                lemma_closures_symmetric(fuel, tables, len, cond0, cond1);
            }
            }
        },
        (_, _) => {},
    }
}

proof fn lemma_fun_lits_symmetric(
    fuel: nat,
    tables: TablesV,
    len: nat,
    value0: ArcValueV,
    value1: ArcValueV,
)
    requires
        !is_reported_error(value0),
        !is_reported_error(value1),
        is_same_kind(value0.value, value1.value),
        value0.value is FunLit,
        is_equal_forced(fuel, tables, len, value0, value1) is Ok,
    ensures
        is_equal_forced(fuel, tables, len, value1, value0) == is_equal_forced(fuel, tables, len, value0, value1),
    decreases fuel, 7nat, 0nat,
{
    match (value0.value, value1.value) {
        (ValueV::FunLit(_, body_expr0), ValueV::FunLit(_, body_expr1)) => {
            lemma_closures_symmetric(fuel, tables, len, body_expr0, body_expr1);
        },
        (_, _) => {},
    }
}

proof fn lemma_fields_symmetric(
    fuel: nat,
    tables: TablesV,
    len: nat,
    value0: ArcValueV,
    value1: ArcValueV,
)
    requires
        !is_reported_error(value0),
        !is_reported_error(value1),
        is_same_kind(value0.value, value1.value),
        value0.value is RecordType || value0.value is FormatRecord || value0.value is FormatOverlap,
        is_equal_forced(fuel, tables, len, value0, value1) is Ok,
    ensures
        is_equal_forced(fuel, tables, len, value1, value0) == is_equal_forced(fuel, tables, len, value0, value1),
    decreases fuel, 7nat, 0nat,
{
    match (value0.value, value1.value) {
        (ValueV::RecordType(labels0, types0), ValueV::RecordType(labels1, types1)) => {
            if labels0 == labels1 {
                lemma_telescopes_symmetric(fuel, tables, len, types0, types1);
            }
        },
        (ValueV::FormatRecord(labels0, formats0), ValueV::FormatRecord(labels1, formats1)) => {
            if labels0 == labels1 {
                lemma_telescopes_symmetric(fuel, tables, len, formats0, formats1);
            }
        },
        (ValueV::FormatOverlap(labels0, formats0), ValueV::FormatOverlap(labels1, formats1)) => {
            if labels0 == labels1 {
                lemma_telescopes_symmetric(fuel, tables, len, formats0, formats1);
            }
        },
        (_, _) => {},
    }
}

proof fn lemma_items_symmetric(
    fuel: nat,
    tables: TablesV,
    len: nat,
    value0: ArcValueV,
    value1: ArcValueV,
)
    requires
        !is_reported_error(value0),
        !is_reported_error(value1),
        is_same_kind(value0.value, value1.value),
        value0.value is RecordLit || value0.value is ArrayLit,
        is_equal_forced(fuel, tables, len, value0, value1) is Ok,
    ensures
        is_equal_forced(fuel, tables, len, value1, value0) == is_equal_forced(fuel, tables, len, value0, value1),
    decreases fuel, 7nat, 0nat,
{
    match (value0.value, value1.value) {
        (ValueV::RecordLit(labels0, exprs0), ValueV::RecordLit(labels1, exprs1)) => {
            if labels0 == labels1 && exprs0.len() == exprs1.len() {
                lemma_all_symmetric(fuel, tables, len, exprs0, exprs1, 0);
            }
        },
        (ValueV::ArrayLit(exprs0), ValueV::ArrayLit(exprs1)) => {
            if exprs0.len() == exprs1.len() {
                lemma_all_symmetric(fuel, tables, len, exprs0, exprs1, 0);
            }
        },
        (_, _) => {},
    }
}

proof fn lemma_cross_symmetric(
    fuel: nat,
    tables: TablesV,
    len: nat,
    value0: ArcValueV,
    value1: ArcValueV,
)
    requires
        !is_reported_error(value0),
        !is_reported_error(value1),
        !is_same_kind(value0.value, value1.value),
        is_equal_forced(fuel, tables, len, value0, value1) is Ok,
    ensures
        is_equal_forced(fuel, tables, len, value1, value0) == is_equal_forced(fuel, tables, len, value0, value1),
    decreases fuel, 7nat, 0nat,
{
    match (value0.value, value1.value) {
        (ValueV::FunLit(_, _), _) => {},
        (_, ValueV::FunLit(_, _)) => {},
        (ValueV::RecordLit(_, _), _) => {},
        (_, ValueV::RecordLit(_, _)) => {},
        (_, _) => {},
    }
}

proof fn lemma_elims_symmetric(
    fuel: nat,
    tables: TablesV,
    len: nat,
    elim0: ElimV,
    elim1: ElimV,
)
    requires
        is_equal_elims(fuel, tables, len, elim0, elim1) is Ok,
    ensures
        is_equal_elims(fuel, tables, len, elim1, elim0) == is_equal_elims(fuel, tables, len, elim0, elim1),
    decreases fuel, 4nat, 0nat,
{
    match (elim0, elim1) {
        (ElimV::FunApp(expr0), ElimV::FunApp(expr1)) => {
            lemma_is_equal_symmetric(fuel, tables, len, expr0, expr1);
        },
        (ElimV::ConstMatch(branches0), ElimV::ConstMatch(branches1)) => {
            lemma_branches_symmetric(fuel, tables, len, branches0, branches1);
        },
        (_, _) => {},
    }
}

proof fn lemma_spines_symmetric(
    fuel: nat,
    tables: TablesV,
    len: nat,
    spine0: Seq<ElimV>,
    spine1: Seq<ElimV>,
    from: int,
)
    requires
        spine0.len() == spine1.len(),
        is_equal_spines(fuel, tables, len, spine0, spine1, from) is Ok,
    ensures
        is_equal_spines(fuel, tables, len, spine1, spine0, from) == is_equal_spines(fuel, tables, len, spine0, spine1, from),
    decreases fuel, 5nat, spine0.len() - from,
{
    if !(from < 0 || from >= spine0.len()) {
        lemma_elims_symmetric(fuel, tables, len, spine0[from], spine1[from]);
        if is_equal_elims(fuel, tables, len, spine0[from], spine1[from]) == Ok::<bool, Stop>(true) {
            lemma_spines_symmetric(fuel, tables, len, spine0, spine1, from + 1);
        }
    }
}

proof fn lemma_all_symmetric(
    fuel: nat,
    tables: TablesV,
    len: nat,
    exprs0: Seq<ArcValueV>,
    exprs1: Seq<ArcValueV>,
    from: int,
)
    requires
        exprs0.len() == exprs1.len(),
        is_equal_all(fuel, tables, len, exprs0, exprs1, from) is Ok,
    ensures
        is_equal_all(fuel, tables, len, exprs1, exprs0, from) == is_equal_all(fuel, tables, len, exprs0, exprs1, from),
    decreases fuel, 1nat, exprs0.len() - from,
{
    if !(from < 0 || from >= exprs0.len()) {
        lemma_is_equal_symmetric(fuel, tables, len, exprs0[from], exprs1[from]);
        if is_equal(fuel, tables, len, exprs0[from], exprs1[from]) == Ok::<bool, Stop>(true) {
            lemma_all_symmetric(fuel, tables, len, exprs0, exprs1, from + 1);
        }
    }
}

proof fn lemma_closures_symmetric(
    fuel: nat,
    tables: TablesV,
    len: nat,
    closure0: ClosureV,
    closure1: ClosureV,
)
    requires
        is_equal_closures(fuel, tables, len, closure0, closure1) is Ok,
    ensures
        is_equal_closures(fuel, tables, len, closure1, closure0) == is_equal_closures(fuel, tables, len, closure0, closure1),
    decreases fuel, 2nat, 0nat,
{
    let value0 = apply_closure(fuel, tables, closure0, fresh_var(len))->Ok_0;
    let value1 = apply_closure(fuel, tables, closure1, fresh_var(len))->Ok_0;
    if len < max_len() {
        lemma_is_equal_symmetric(fuel, tables, len + 1, value0, value1);
    }
}

proof fn lemma_telescopes_symmetric(
    fuel: nat,
    tables: TablesV,
    len: nat,
    telescope0: TelescopeV,
    telescope1: TelescopeV,
)
    requires
        is_equal_telescopes(fuel, tables, len, telescope0, telescope1) is Ok,
    ensures
        is_equal_telescopes(fuel, tables, len, telescope1, telescope0) == is_equal_telescopes(fuel, tables, len, telescope0, telescope1),
    decreases fuel, 2nat, 0nat,
{
    if telescope0.terms.len() == telescope1.terms.len() {
        lemma_values_symmetric(fuel, tables, len, telescope0, telescope1);
    }
}

proof fn lemma_values_symmetric(
    fuel: nat,
    tables: TablesV,
    len: nat,
    telescope0: TelescopeV,
    telescope1: TelescopeV,
)
    requires
        is_equal_values(fuel, tables, len, telescope0, telescope1) is Ok,
    ensures
        is_equal_values(fuel, tables, len, telescope1, telescope0) == is_equal_values(fuel, tables, len, telescope0, telescope1),
    decreases fuel, 1nat, telescope0.terms.len(),
{
    match (split_telescope(fuel, tables, telescope0), split_telescope(fuel, tables, telescope1)) {
        (Ok(Some((value0, rest0))), Ok(Some((value1, rest1)))) => {
            lemma_is_equal_symmetric(fuel, tables, len, value0, value1);
            if is_equal(fuel, tables, len, value0, value1) == Ok::<bool, Stop>(true) && len
                < max_len() {
                lemma_values_symmetric(
                    fuel,
                    tables,
                    len + 1,
                    resume_telescope(rest0, fresh_var(len)),
                    resume_telescope(rest1, fresh_var(len)),
                );
            }
        },
        _ => {},
    }
}

proof fn lemma_branches_symmetric(
    fuel: nat,
    tables: TablesV,
    len: nat,
    branches0: BranchesV,
    branches1: BranchesV,
)
    requires
        is_equal_branches(fuel, tables, len, branches0, branches1) is Ok,
    ensures
        is_equal_branches(fuel, tables, len, branches1, branches0) == is_equal_branches(fuel, tables, len, branches0, branches1),
    decreases fuel, 3nat, branches0.pattern_branches.len(),
{
    match (split_branches(fuel, tables, branches0), split_branches(fuel, tables, branches1)) {
        (
            Ok(SplitBranchesV::Branch((const0, body0), next0)),
            Ok(SplitBranchesV::Branch((const1, body1), next1)),
        ) => {
            lemma_same_symmetric(const0, const1);
            if const0.same(const1) {
                lemma_is_equal_symmetric(fuel, tables, len, body0, body1);
                if is_equal(fuel, tables, len, body0, body1) == Ok::<bool, Stop>(true) {
                    lemma_branches_symmetric(fuel, tables, len, next0, next1);
                }
            }
        },
        (Ok(SplitBranchesV::Default(default0)), Ok(SplitBranchesV::Default(default1))) => {
            lemma_closures_symmetric(fuel, tables, len, default0, default1);
        },
        _ => {},
    }
}

} // verus!
