//! The budget does not change what quotation, normalisation and conversion
//! yield: what they yield within a budget, they yield with every larger
//! budget.

use crate::core_lang::budget::{
    lemma_apply_closure_step, lemma_eval_step, lemma_force_step, lemma_fun_app_step,
    lemma_split_branches_step, lemma_split_telescope_step, within_limits,
};
use crate::core_lang::model::{apply_closure, eval, force, fresh_var, fun_app, is_equal, is_equal_all, is_equal_branches, is_equal_closures, is_equal_elims, is_equal_forced, is_equal_fun_lit, is_equal_record_lit, is_equal_spines, is_equal_telescopes, is_equal_values, is_reported_error, max_len, normalise, quote, quote_all, quote_branches, quote_closure, quote_forced, quote_head, quote_spine, quote_telescope, record_proj, resume_telescope, split_branches, split_telescope, ArcValueV, BranchesV, ClosureV, ElimV, Head, SplitBranchesV, Stop, TablesV, TelescopeV, ValueV};
use crate::core_lang::TermV;
use crate::source::Span;
use crate::symbol::StringId;
use vstd::prelude::*;

verus! {

/// One more unit of budget does not change
/// quotation that ended within its limits.
pub proof fn lemma_quote_step(fuel: nat, tables: TablesV, len: nat, unfold: bool, value: ArcValueV)
    requires
        within_limits(quote(fuel, tables, len, unfold, value)),
    ensures
        quote(fuel + 1, tables, len, unfold, value) == quote(fuel, tables, len, unfold, value),
    decreases fuel, 0nat, 0nat,
{
    let f = (fuel - 1) as nat;
    lemma_force_step(f, tables, value);
    match force(f, tables, value) {
        Ok(forced) => {
            lemma_quote_forced_step(f, tables, len, unfold, forced);
        },
        Err(_) => {},
    }
}

/// One more unit of budget does not change
/// the quotation of a forced value that ended within its limits.
pub proof fn lemma_quote_forced_step(
    fuel: nat,
    tables: TablesV,
    len: nat,
    unfold: bool,
    value: ArcValueV,
)
    requires
        within_limits(quote_forced(fuel, tables, len, unfold, value)),
    ensures
        quote_forced(fuel + 1, tables, len, unfold, value) == quote_forced(
            fuel,
            tables,
            len,
            unfold,
            value,
        ),
    decreases fuel, 5nat, 0nat,
{
    let span = value.span;
    match value.value {
        ValueV::Stuck(head, spine) => {
            lemma_quote_head_step(fuel, tables, len, unfold, span, head);
            match quote_head(fuel, tables, len, unfold, span, head) {
                Ok(head) => {
                    lemma_quote_spine_step(fuel, tables, len, unfold, span, head, spine, 0);
                },
                Err(_) => {},
            }
        },
        ValueV::FunType(_, param_type, body_type) => {
            lemma_quote_step(fuel, tables, len, unfold, *param_type);
            if quote(fuel, tables, len, unfold, *param_type) is Ok {
                lemma_quote_closure_step(fuel, tables, len, unfold, body_type);
            }
        },
        ValueV::FunLit(_, body_expr) => {
            lemma_quote_closure_step(fuel, tables, len, unfold, body_expr);
        },
        ValueV::RecordType(_, types) => {
            lemma_quote_telescope_step(fuel, tables, len, unfold, types);
        },
        ValueV::RecordLit(_, exprs) => {
            lemma_quote_all_step(fuel, tables, len, unfold, exprs, 0);
        },
        ValueV::ArrayLit(exprs) => {
            lemma_quote_all_step(fuel, tables, len, unfold, exprs, 0);
        },
        ValueV::FormatRecord(_, formats) => {
            lemma_quote_telescope_step(fuel, tables, len, unfold, formats);
        },
        ValueV::FormatCond(_, format, cond) => {
            lemma_quote_step(fuel, tables, len, unfold, *format);
            if quote(fuel, tables, len, unfold, *format) is Ok {
                lemma_quote_closure_step(fuel, tables, len, unfold, cond);
            }
        },
        ValueV::FormatOverlap(_, formats) => {
            lemma_quote_telescope_step(fuel, tables, len, unfold, formats);
        },
        _ => {},
    }
}

proof fn lemma_quote_head_step(
    fuel: nat,
    tables: TablesV,
    len: nat,
    unfold: bool,
    span: Span,
    head: Head,
)
    requires
        within_limits(quote_head(fuel, tables, len, unfold, span, head)),
    ensures
        quote_head(fuel + 1, tables, len, unfold, span, head) == quote_head(
            fuel,
            tables,
            len,
            unfold,
            span,
            head,
        ),
    decreases fuel, 1nat, 0nat,
{
    match head {
        Head::MetaVar(var) => {
            if unfold && var.0 < tables.metas.len() {
                match tables.metas[var.0 as int] {
                    Some(value) => {
                        lemma_quote_step(fuel, tables, len, unfold, value);
                    },
                    None => {},
                }
            }
        },
        _ => {},
    }
}

/// One more unit of budget does not change
/// the quotation of a spine that ended within its limits.
pub proof fn lemma_quote_spine_step(
    fuel: nat,
    tables: TablesV,
    len: nat,
    unfold: bool,
    span: Span,
    head: TermV,
    spine: Seq<ElimV>,
    from: int,
)
    requires
        within_limits(quote_spine(fuel, tables, len, unfold, span, head, spine, from)),
    ensures
        quote_spine(fuel + 1, tables, len, unfold, span, head, spine, from) == quote_spine(
            fuel,
            tables,
            len,
            unfold,
            span,
            head,
            spine,
            from,
        ),
    decreases fuel, 4nat, spine.len() - from,
{
    if 0 <= from < spine.len() {
        match spine[from] {
            ElimV::FunApp(arg) => {
                lemma_quote_step(fuel, tables, len, unfold, arg);
                match quote(fuel, tables, len, unfold, arg) {
                    Ok(arg) => {
                        lemma_quote_spine_step(
                            fuel,
                            tables,
                            len,
                            unfold,
                            span,
                            TermV::FunApp(span, Box::new(head), Box::new(arg)),
                            spine,
                            from + 1,
                        );
                    },
                    Err(_) => {},
                }
            },
            ElimV::RecordProj(label) => {
                lemma_quote_spine_step(
                    fuel,
                    tables,
                    len,
                    unfold,
                    span,
                    TermV::RecordProj(span, Box::new(head), label),
                    spine,
                    from + 1,
                );
            },
            ElimV::ConstMatch(branches) => {
                lemma_quote_branches_step(fuel, tables, len, unfold, branches);
                match quote_branches(fuel, tables, len, unfold, branches) {
                    Ok((branches, default_expr)) => {
                        lemma_quote_spine_step(
                            fuel,
                            tables,
                            len,
                            unfold,
                            span,
                            TermV::ConstMatch(
                                span,
                                Box::new(head),
                                branches,
                                match default_expr {
                                    Some(expr) => Some(Box::new(expr)),
                                    None => None,
                                },
                            ),
                            spine,
                            from + 1,
                        );
                    },
                    Err(_) => {},
                }
            },
        }
    }
}

/// One more unit of budget does not change
/// the quotation of branches that ended within its limits.
pub proof fn lemma_quote_branches_step(
    fuel: nat,
    tables: TablesV,
    len: nat,
    unfold: bool,
    branches: BranchesV,
)
    requires
        within_limits(quote_branches(fuel, tables, len, unfold, branches)),
    ensures
        quote_branches(fuel + 1, tables, len, unfold, branches) == quote_branches(
            fuel,
            tables,
            len,
            unfold,
            branches,
        ),
    decreases fuel, 2nat, branches.pattern_branches.len(),
{
    lemma_split_branches_step(fuel, tables, branches);
    match split_branches(fuel, tables, branches) {
        Ok(SplitBranchesV::Branch((_, body), next)) => {
            lemma_quote_step(fuel, tables, len, unfold, body);
            if quote(fuel, tables, len, unfold, body) is Ok {
                lemma_quote_branches_step(fuel, tables, len, unfold, next);
            }
        },
        Ok(SplitBranchesV::Default(default_expr)) => {
            lemma_quote_closure_step(fuel, tables, len, unfold, default_expr);
        },
        _ => {},
    }
}

/// One more unit of budget does not change
/// the quotation of a closure that ended within its limits.
pub proof fn lemma_quote_closure_step(
    fuel: nat,
    tables: TablesV,
    len: nat,
    unfold: bool,
    closure: ClosureV,
)
    requires
        within_limits(quote_closure(fuel, tables, len, unfold, closure)),
    ensures
        quote_closure(fuel + 1, tables, len, unfold, closure) == quote_closure(
            fuel,
            tables,
            len,
            unfold,
            closure,
        ),
    decreases fuel, 1nat, 0nat,
{
    lemma_apply_closure_step(fuel, tables, closure, fresh_var(len));
    match apply_closure(fuel, tables, closure, fresh_var(len)) {
        Ok(value) => {
            if len < max_len() {
                lemma_quote_step(fuel, tables, len + 1, unfold, value);
            }
        },
        Err(_) => {},
    }
}

/// One more unit of budget does not change
/// the quotation of a telescope that ended within its limits.
pub proof fn lemma_quote_telescope_step(
    fuel: nat,
    tables: TablesV,
    len: nat,
    unfold: bool,
    telescope: TelescopeV,
)
    requires
        within_limits(quote_telescope(fuel, tables, len, unfold, telescope)),
    ensures
        quote_telescope(fuel + 1, tables, len, unfold, telescope) == quote_telescope(
            fuel,
            tables,
            len,
            unfold,
            telescope,
        ),
    decreases fuel, 1nat, telescope.terms.len(),
{
    lemma_split_telescope_step(fuel, tables, telescope);
    match split_telescope(fuel, tables, telescope) {
        Ok(Some((value, rest))) => {
            lemma_quote_step(fuel, tables, len, unfold, value);
            if quote(fuel, tables, len, unfold, value) is Ok && len < max_len() {
                lemma_quote_telescope_step(
                    fuel,
                    tables,
                    len + 1,
                    unfold,
                    resume_telescope(rest, fresh_var(len)),
                );
            }
        },
        _ => {},
    }
}

/// One more unit of budget does not change
/// the quotation of a sequence of values that ended within its limits.
pub proof fn lemma_quote_all_step(
    fuel: nat,
    tables: TablesV,
    len: nat,
    unfold: bool,
    values: Seq<ArcValueV>,
    from: int,
)
    requires
        within_limits(quote_all(fuel, tables, len, unfold, values, from)),
    ensures
        quote_all(fuel + 1, tables, len, unfold, values, from) == quote_all(
            fuel,
            tables,
            len,
            unfold,
            values,
            from,
        ),
    decreases fuel, 1nat, values.len() - from,
{
    if 0 <= from < values.len() {
        lemma_quote_step(fuel, tables, len, unfold, values[from]);
        if quote(fuel, tables, len, unfold, values[from]) is Ok {
            lemma_quote_all_step(fuel, tables, len, unfold, values, from + 1);
        }
    }
}

/// Quotation does not depend on the budget once the budget suffices.
pub proof fn lemma_quote_stable(
    fuel: nat,
    more: nat,
    tables: TablesV,
    len: nat,
    unfold: bool,
    value: ArcValueV,
)
    requires
        within_limits(quote(fuel, tables, len, unfold, value)),
    ensures
        quote(fuel + more, tables, len, unfold, value) == quote(fuel, tables, len, unfold, value),
    decreases more,
{
    if more > 0 {
        lemma_quote_stable(fuel, (more - 1) as nat, tables, len, unfold, value);
        lemma_quote_step(fuel + (more - 1) as nat, tables, len, unfold, value);
    }
}

/// Normalisation does not depend on the budget once the budget suffices:
/// the normal form that a term has within a budget is its normal form with
/// every larger budget.
pub proof fn lemma_normalise_stable(
    fuel: nat,
    more: nat,
    tables: TablesV,
    locals: Seq<ArcValueV>,
    term: TermV,
)
    requires
        within_limits(normalise(fuel, tables, locals, term)),
    ensures
        normalise(fuel + more, tables, locals, term) == normalise(fuel, tables, locals, term),
    decreases more,
{
    if more > 0 {
        lemma_normalise_stable(fuel, (more - 1) as nat, tables, locals, term);
        let f = fuel + (more - 1) as nat;
        lemma_eval_step(f, tables, locals, term);
        match eval(f, tables, locals, term) {
            Ok(value) => {
                lemma_quote_step(f, tables, locals.len(), false, value);
            },
            Err(_) => {},
        }
    }
}

/// One more unit of budget does not change
/// conversion that ended within its limits.
pub proof fn lemma_is_equal_step(
    fuel: nat,
    tables: TablesV,
    len: nat,
    value0: ArcValueV,
    value1: ArcValueV,
)
    requires
        within_limits(is_equal(fuel, tables, len, value0, value1)),
    ensures
        is_equal(fuel + 1, tables, len, value0, value1) == is_equal(
            fuel,
            tables,
            len,
            value0,
            value1,
        ),
    decreases fuel, 0nat, 0nat,
{
    let f = (fuel - 1) as nat;
    lemma_force_step(f, tables, value0);
    match force(f, tables, value0) {
        Ok(forced0) => {
            lemma_force_step(f, tables, value1);
            match force(f, tables, value1) {
                Ok(forced1) => {
                    lemma_is_equal_forced_step(f, tables, len, forced0, forced1);
                },
                Err(_) => {},
            }
        },
        Err(_) => {},
    }
}

proof fn lemma_is_equal_forced_step(
    fuel: nat,
    tables: TablesV,
    len: nat,
    value0: ArcValueV,
    value1: ArcValueV,
)
    requires
        within_limits(is_equal_forced(fuel, tables, len, value0, value1)),
    ensures
        is_equal_forced(fuel + 1, tables, len, value0, value1) == is_equal_forced(
            fuel,
            tables,
            len,
            value0,
            value1,
        ),
    decreases fuel, 6nat, 0nat,
{
    if is_reported_error(value0) || is_reported_error(value1) {
    } else {
        match (value0.value, value1.value) {
            (ValueV::Stuck(head0, spine0), ValueV::Stuck(head1, spine1)) => {
                if head0 == head1 && spine0.len() == spine1.len() {
                    lemma_is_equal_spines_step(fuel, tables, len, spine0, spine1, 0);
                }
            },
            (ValueV::Universe, ValueV::Universe) => {},
            (
                ValueV::FunType(_, param_type0, body_type0),
                ValueV::FunType(_, param_type1, body_type1),
            ) => {
                lemma_is_equal_step(fuel, tables, len, *param_type0, *param_type1);
                if is_equal(fuel, tables, len, *param_type0, *param_type1) == Ok::<_, Stop>(true) {
                    lemma_is_equal_closures_step(fuel, tables, len, body_type0, body_type1);
                }
            },
            (ValueV::FunLit(_, body_expr0), ValueV::FunLit(_, body_expr1)) => {
                lemma_is_equal_closures_step(fuel, tables, len, body_expr0, body_expr1);
            },
            (ValueV::FunLit(_, body_expr), _) => {
                lemma_is_equal_fun_lit_step(fuel, tables, len, body_expr, value1);
            },
            (_, ValueV::FunLit(_, body_expr)) => {
                lemma_is_equal_fun_lit_step(fuel, tables, len, body_expr, value0);
            },
            (ValueV::RecordType(labels0, types0), ValueV::RecordType(labels1, types1)) => {
                if labels0 == labels1 {
                    lemma_is_equal_telescopes_step(fuel, tables, len, types0, types1);
                }
            },
            (ValueV::RecordLit(labels0, exprs0), ValueV::RecordLit(labels1, exprs1)) => {
                if labels0 == labels1 && exprs0.len() == exprs1.len() {
                    lemma_is_equal_all_step(fuel, tables, len, exprs0, exprs1, 0);
                }
            },
            (ValueV::RecordLit(labels, exprs), _) => {
                lemma_is_equal_record_lit_step(fuel, tables, len, labels, exprs, value1, 0);
            },
            (_, ValueV::RecordLit(labels, exprs)) => {
                lemma_is_equal_record_lit_step(fuel, tables, len, labels, exprs, value0, 0);
            },
            (ValueV::ArrayLit(exprs0), ValueV::ArrayLit(exprs1)) => {
                if exprs0.len() == exprs1.len() {
                    lemma_is_equal_all_step(fuel, tables, len, exprs0, exprs1, 0);
                }
            },
            (
                ValueV::FormatRecord(labels0, formats0),
                ValueV::FormatRecord(labels1, formats1),
            ) => {
                if labels0 == labels1 {
                    lemma_is_equal_telescopes_step(fuel, tables, len, formats0, formats1);
                }
            },
            (
                ValueV::FormatOverlap(labels0, formats0),
                ValueV::FormatOverlap(labels1, formats1),
            ) => {
                if labels0 == labels1 {
                    lemma_is_equal_telescopes_step(fuel, tables, len, formats0, formats1);
                }
            },
            (
                ValueV::FormatCond(label0, format0, cond0),
                ValueV::FormatCond(label1, format1, cond1),
            ) => {
                if label0 == label1 {
                    lemma_is_equal_step(fuel, tables, len, *format0, *format1);
                    if is_equal(fuel, tables, len, *format0, *format1) == Ok::<_, Stop>(true) {
                        lemma_is_equal_closures_step(fuel, tables, len, cond0, cond1);
                    }
                }
            },
            (_, _) => {},
        }
    }
}

proof fn lemma_is_equal_elims_step(
    fuel: nat,
    tables: TablesV,
    len: nat,
    elim0: ElimV,
    elim1: ElimV,
)
    requires
        within_limits(is_equal_elims(fuel, tables, len, elim0, elim1)),
    ensures
        is_equal_elims(fuel + 1, tables, len, elim0, elim1) == is_equal_elims(
            fuel,
            tables,
            len,
            elim0,
            elim1,
        ),
    decreases fuel, 4nat, 0nat,
{
    match (elim0, elim1) {
        (ElimV::FunApp(expr0), ElimV::FunApp(expr1)) => {
            lemma_is_equal_step(fuel, tables, len, expr0, expr1);
        },
        (ElimV::ConstMatch(branches0), ElimV::ConstMatch(branches1)) => {
            lemma_is_equal_branches_step(fuel, tables, len, branches0, branches1);
        },
        (_, _) => {},
    }
}

proof fn lemma_is_equal_spines_step(
    fuel: nat,
    tables: TablesV,
    len: nat,
    spine0: Seq<ElimV>,
    spine1: Seq<ElimV>,
    from: int,
)
    requires
        within_limits(is_equal_spines(fuel, tables, len, spine0, spine1, from)),
    ensures
        is_equal_spines(fuel + 1, tables, len, spine0, spine1, from) == is_equal_spines(
            fuel,
            tables,
            len,
            spine0,
            spine1,
            from,
        ),
    decreases fuel, 5nat, spine0.len() - from,
{
    if 0 <= from < spine0.len() && from < spine1.len() {
        lemma_is_equal_elims_step(fuel, tables, len, spine0[from], spine1[from]);
        if is_equal_elims(fuel, tables, len, spine0[from], spine1[from]) == Ok::<_, Stop>(true) {
            lemma_is_equal_spines_step(fuel, tables, len, spine0, spine1, from + 1);
        }
    }
}

proof fn lemma_is_equal_all_step(
    fuel: nat,
    tables: TablesV,
    len: nat,
    exprs0: Seq<ArcValueV>,
    exprs1: Seq<ArcValueV>,
    from: int,
)
    requires
        within_limits(is_equal_all(fuel, tables, len, exprs0, exprs1, from)),
    ensures
        is_equal_all(fuel + 1, tables, len, exprs0, exprs1, from) == is_equal_all(
            fuel,
            tables,
            len,
            exprs0,
            exprs1,
            from,
        ),
    decreases fuel, 1nat, exprs0.len() - from,
{
    if 0 <= from < exprs0.len() && from < exprs1.len() {
        lemma_is_equal_step(fuel, tables, len, exprs0[from], exprs1[from]);
        if is_equal(fuel, tables, len, exprs0[from], exprs1[from]) == Ok::<_, Stop>(true) {
            lemma_is_equal_all_step(fuel, tables, len, exprs0, exprs1, from + 1);
        }
    }
}

proof fn lemma_is_equal_closures_step(
    fuel: nat,
    tables: TablesV,
    len: nat,
    closure0: ClosureV,
    closure1: ClosureV,
)
    requires
        within_limits(is_equal_closures(fuel, tables, len, closure0, closure1)),
    ensures
        is_equal_closures(fuel + 1, tables, len, closure0, closure1) == is_equal_closures(
            fuel,
            tables,
            len,
            closure0,
            closure1,
        ),
    decreases fuel, 2nat, 0nat,
{
    lemma_apply_closure_step(fuel, tables, closure0, fresh_var(len));
    match apply_closure(fuel, tables, closure0, fresh_var(len)) {
        Ok(value0) => {
            lemma_apply_closure_step(fuel, tables, closure1, fresh_var(len));
            match apply_closure(fuel, tables, closure1, fresh_var(len)) {
                Ok(value1) => {
                    if len < max_len() {
                        lemma_is_equal_step(fuel, tables, len + 1, value0, value1);
                    }
                },
                Err(_) => {},
            }
        },
        Err(_) => {},
    }
}

proof fn lemma_is_equal_telescopes_step(
    fuel: nat,
    tables: TablesV,
    len: nat,
    telescope0: TelescopeV,
    telescope1: TelescopeV,
)
    requires
        within_limits(is_equal_telescopes(fuel, tables, len, telescope0, telescope1)),
    ensures
        is_equal_telescopes(fuel + 1, tables, len, telescope0, telescope1) == is_equal_telescopes(
            fuel,
            tables,
            len,
            telescope0,
            telescope1,
        ),
    decreases fuel, 2nat, 0nat,
{
    if telescope0.terms.len() == telescope1.terms.len() {
        lemma_is_equal_values_step(fuel, tables, len, telescope0, telescope1);
    }
}

proof fn lemma_is_equal_values_step(
    fuel: nat,
    tables: TablesV,
    len: nat,
    telescope0: TelescopeV,
    telescope1: TelescopeV,
)
    requires
        within_limits(is_equal_values(fuel, tables, len, telescope0, telescope1)),
    ensures
        is_equal_values(fuel + 1, tables, len, telescope0, telescope1) == is_equal_values(
            fuel,
            tables,
            len,
            telescope0,
            telescope1,
        ),
    decreases fuel, 1nat, telescope0.terms.len(),
{
    lemma_split_telescope_step(fuel, tables, telescope0);
    match split_telescope(fuel, tables, telescope0) {
        Ok(split0) => {
            lemma_split_telescope_step(fuel, tables, telescope1);
            match split_telescope(fuel, tables, telescope1) {
                Ok(split1) => {
                    match (split0, split1) {
                        (Some((value0, rest0)), Some((value1, rest1))) => {
                            lemma_is_equal_step(fuel, tables, len, value0, value1);
                            if is_equal(fuel, tables, len, value0, value1) == Ok::<_, Stop>(true)
                                && len < max_len() {
                                lemma_is_equal_values_step(
                                    fuel,
                                    tables,
                                    len + 1,
                                    resume_telescope(rest0, fresh_var(len)),
                                    resume_telescope(rest1, fresh_var(len)),
                                );
                            }
                        },
                        (_, _) => {},
                    }
                },
                Err(_) => {},
            }
        },
        Err(_) => {},
    }
}

proof fn lemma_is_equal_branches_step(
    fuel: nat,
    tables: TablesV,
    len: nat,
    branches0: BranchesV,
    branches1: BranchesV,
)
    requires
        within_limits(is_equal_branches(fuel, tables, len, branches0, branches1)),
    ensures
        is_equal_branches(fuel + 1, tables, len, branches0, branches1) == is_equal_branches(
            fuel,
            tables,
            len,
            branches0,
            branches1,
        ),
    decreases fuel, 3nat, branches0.pattern_branches.len(),
{
    lemma_split_branches_step(fuel, tables, branches0);
    match split_branches(fuel, tables, branches0) {
        Ok(split0) => {
            lemma_split_branches_step(fuel, tables, branches1);
            match split_branches(fuel, tables, branches1) {
                Ok(split1) => {
                    match (split0, split1) {
                        (
                            SplitBranchesV::Branch((const0, body0), next0),
                            SplitBranchesV::Branch((const1, body1), next1),
                        ) => {
                            if const0.same(const1) {
                                lemma_is_equal_step(fuel, tables, len, body0, body1);
                                if is_equal(fuel, tables, len, body0, body1) == Ok::<_, Stop>(
                                    true,
                                ) {
                                    lemma_is_equal_branches_step(fuel, tables, len, next0, next1);
                                }
                            }
                        },
                        (
                            SplitBranchesV::Default(default0),
                            SplitBranchesV::Default(default1),
                        ) => {
                            lemma_is_equal_closures_step(fuel, tables, len, default0, default1);
                        },
                        (_, _) => {},
                    }
                },
                Err(_) => {},
            }
        },
        Err(_) => {},
    }
}

proof fn lemma_is_equal_fun_lit_step(
    fuel: nat,
    tables: TablesV,
    len: nat,
    body_expr: ClosureV,
    value: ArcValueV,
)
    requires
        within_limits(is_equal_fun_lit(fuel, tables, len, body_expr, value)),
    ensures
        is_equal_fun_lit(fuel + 1, tables, len, body_expr, value) == is_equal_fun_lit(
            fuel,
            tables,
            len,
            body_expr,
            value,
        ),
    decreases fuel, 1nat, 0nat,
{
    lemma_fun_app_step(fuel, tables, value, fresh_var(len));
    match fun_app(fuel, tables, value, fresh_var(len)) {
        Ok(applied) => {
            lemma_apply_closure_step(fuel, tables, body_expr, fresh_var(len));
            match apply_closure(fuel, tables, body_expr, fresh_var(len)) {
                Ok(body) => {
                    if len < max_len() {
                        lemma_is_equal_step(fuel, tables, len + 1, body, applied);
                    }
                },
                Err(_) => {},
            }
        },
        Err(_) => {},
    }
}

proof fn lemma_is_equal_record_lit_step(
    fuel: nat,
    tables: TablesV,
    len: nat,
    labels: Seq<StringId>,
    exprs: Seq<ArcValueV>,
    value: ArcValueV,
    from: int,
)
    requires
        within_limits(is_equal_record_lit(fuel, tables, len, labels, exprs, value, from)),
    ensures
        is_equal_record_lit(fuel + 1, tables, len, labels, exprs, value, from)
            == is_equal_record_lit(fuel, tables, len, labels, exprs, value, from),
    decreases fuel, 1nat, labels.len() - from,
{
    if 0 <= from < labels.len() && from < exprs.len() {
        match record_proj(value, labels[from]) {
            Ok(field) => {
                lemma_is_equal_step(fuel, tables, len, exprs[from], field);
                if is_equal(fuel, tables, len, exprs[from], field) == Ok::<_, Stop>(true) {
                    lemma_is_equal_record_lit_step(
                        fuel,
                        tables,
                        len,
                        labels,
                        exprs,
                        value,
                        from + 1,
                    );
                }
            },
            Err(_) => {},
        }
    }
}

/// Conversion does not depend on the budget once the budget suffices: the
/// answer that a comparison gives within a budget is its answer with every
/// larger budget.
pub proof fn lemma_is_equal_stable(
    fuel: nat,
    more: nat,
    tables: TablesV,
    len: nat,
    value0: ArcValueV,
    value1: ArcValueV,
)
    requires
        within_limits(is_equal(fuel, tables, len, value0, value1)),
    ensures
        is_equal(fuel + more, tables, len, value0, value1) == is_equal(
            fuel,
            tables,
            len,
            value0,
            value1,
        ),
    decreases more,
{
    if more > 0 {
        lemma_is_equal_stable(fuel, (more - 1) as nat, tables, len, value0, value1);
        lemma_is_equal_step(fuel + (more - 1) as nat, tables, len, value0, value1);
    }
}

} // verus!
