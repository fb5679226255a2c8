//! Values with the same normal form are convertible: where quotation reads
//! two values back into the same term, conversion finds them equal, within
//! the budget that quotation had.

use crate::core_lang::laws::{is_forced, lemma_const_same, lemma_force_is_forced};
use crate::core_lang::model::{apply_closure, eval, force, fresh_var, is_equal, is_equal_all, is_equal_branches, is_equal_closures, is_equal_elims, is_equal_forced, is_equal_spines, is_equal_telescopes, is_equal_values, is_reported_error, max_len, normalise, quote, quote_all, quote_branches, quote_closure, quote_forced, quote_head, quote_spine, quote_telescope, resume_telescope, split_branches, split_telescope, ArcValueV, BranchesV, ClosureV, ElimV, SplitBranchesV, Stop, TablesV, TelescopeV, ValueV};
use crate::core_lang::TermV;
use crate::source::Span;
use vstd::prelude::*;

verus! {

/// Whether a comparison said yes.
pub open spec fn says_yes(answer: Result<bool, Stop>) -> bool {
    answer == Ok::<bool, Stop>(true)
}

/// The number of eliminations at the root of a term: of applications,
/// projections and matches around its head.
pub open spec fn depth(term: TermV) -> nat
    decreases term,
{
    match term {
        TermV::FunApp(_, head, _) => 1 + depth(*head),
        TermV::RecordProj(_, head, _) => 1 + depth(*head),
        TermV::ConstMatch(_, head, _, _) => 1 + depth(*head),
        _ => 0,
    }
}

/// The term of an elimination around the term of what it eliminates.
pub open spec fn quote_elim(
    fuel: nat,
    tables: TablesV,
    len: nat,
    unfold: bool,
    span: Span,
    head: TermV,
    elim: ElimV,
) -> Result<TermV, Stop> {
    match elim {
        ElimV::FunApp(arg) => match quote(fuel, tables, len, unfold, arg) {
            Ok(arg) => Ok(TermV::FunApp(span, Box::new(head), Box::new(arg))),
            Err(stop) => Err(stop),
        },
        ElimV::RecordProj(label) => Ok(TermV::RecordProj(span, Box::new(head), label)),
        ElimV::ConstMatch(branches) => match quote_branches(fuel, tables, len, unfold, branches) {
            Ok((branches, default_expr)) => Ok(
                TermV::ConstMatch(
                    span,
                    Box::new(head),
                    branches,
                    match default_expr {
                        Some(expr) => Some(Box::new(expr)),
                        None => None,
                    },
                ),
            ),
            Err(stop) => Err(stop),
        },
    }
}

/// The term of a spine has one elimination more at its root for each
/// elimination of the spine.
proof fn lemma_spine_depth(
    fuel: nat,
    tables: TablesV,
    len: nat,
    unfold: bool,
    span: Span,
    head: TermV,
    spine: Seq<ElimV>,
    from: int,
)
    requires
        0 <= from <= spine.len(),
        quote_spine(fuel, tables, len, unfold, span, head, spine, from) is Ok,
    ensures
        depth(quote_spine(fuel, tables, len, unfold, span, head, spine, from)->Ok_0) == depth(head)
            + spine.len() - from,
    decreases spine.len() - from,
{
    if from < spine.len() {
        let next = quote_elim(fuel, tables, len, unfold, span, head, spine[from]);
        assert(next is Ok);
        lemma_spine_depth(fuel, tables, len, unfold, span, next->Ok_0, spine, from + 1);
    }
}

/// A sequence that starts with an item is another one that starts with an
/// item only if the items and what follows them are the same.
proof fn lemma_cons_injective<T>(first0: T, rest0: Seq<T>, first1: T, rest1: Seq<T>)
    requires
        seq![first0] + rest0 == seq![first1] + rest1,
    ensures
        first0 == first1,
        rest0 == rest1,
{
    let left = seq![first0] + rest0;
    let right = seq![first1] + rest1;
    assert(left[0] == right[0]);
    assert(left.len() == right.len());
    assert forall|i: int| 0 <= i < rest0.len() implies rest0[i] == rest1[i] by {
        assert(left[i + 1] == right[i + 1]);
    }
    assert(rest0 =~= rest1);
}

/// The terms of a telescope are as many as its terms.
proof fn lemma_telescope_len(
    fuel: nat,
    tables: TablesV,
    len: nat,
    unfold: bool,
    telescope: TelescopeV,
)
    requires
        quote_telescope(fuel, tables, len, unfold, telescope) is Ok,
    ensures
        quote_telescope(fuel, tables, len, unfold, telescope)->Ok_0.len()
            == telescope.terms.len(),
    decreases telescope.terms.len(),
{
    match split_telescope(fuel, tables, telescope) {
        Ok(Some((value, rest))) => {
            lemma_telescope_len(
                fuel,
                tables,
                len + 1,
                unfold,
                resume_telescope(rest, fresh_var(len)),
            );
        },
        _ => {},
    }
}

/// The terms of values are as many as the values.
proof fn lemma_all_len(
    fuel: nat,
    tables: TablesV,
    len: nat,
    unfold: bool,
    values: Seq<ArcValueV>,
    from: int,
)
    requires
        0 <= from <= values.len(),
        quote_all(fuel, tables, len, unfold, values, from) is Ok,
    ensures
        quote_all(fuel, tables, len, unfold, values, from)->Ok_0.len() == values.len() - from,
    decreases values.len() - from,
{
    if from < values.len() {
        lemma_all_len(fuel, tables, len, unfold, values, from + 1);
    }
}

/// Two values that quotation reads back into the same term are
/// convertible: a comparison of them says yes, within the same budget.
pub proof fn lemma_same_quote(
    fuel: nat,
    tables: TablesV,
    len: nat,
    unfold: bool,
    value0: ArcValueV,
    value1: ArcValueV,
)
    requires
        len <= max_len(),
        quote(fuel, tables, len, unfold, value0) is Ok,
        quote(fuel, tables, len, unfold, value0) == quote(fuel, tables, len, unfold, value1),
    ensures
        says_yes(is_equal(fuel, tables, len, value0, value1)),
    decreases fuel, 0nat, 0nat,
{
    let f = (fuel - 1) as nat;
    lemma_force_is_forced(f, tables, value0);
    lemma_force_is_forced(f, tables, value1);
    lemma_same_quote_forced(
        f,
        tables,
        len,
        unfold,
        force(f, tables, value0)->Ok_0,
        force(f, tables, value1)->Ok_0,
    );
}

proof fn lemma_same_quote_forced(
    fuel: nat,
    tables: TablesV,
    len: nat,
    unfold: bool,
    value0: ArcValueV,
    value1: ArcValueV,
)
    requires
        len <= max_len(),
        is_forced(tables.metas, value0),
        is_forced(tables.metas, value1),
        quote_forced(fuel, tables, len, unfold, value0) is Ok,
        quote_forced(fuel, tables, len, unfold, value0) == quote_forced(
            fuel,
            tables,
            len,
            unfold,
            value1,
        ),
    ensures
        says_yes(is_equal_forced(fuel, tables, len, value0, value1)),
    decreases fuel, 8nat, 0nat,
{
    if is_reported_error(value0) || is_reported_error(value1) {
    } else {
        match value0.value {
            ValueV::Stuck(_, _) => lemma_same_stuck(fuel, tables, len, unfold, value0, value1),
            ValueV::FunType(_, _, _) => lemma_same_fun_types(
                fuel,
                tables,
                len,
                unfold,
                value0,
                value1,
            ),
            ValueV::FunLit(_, _) => lemma_same_fun_lits(fuel, tables, len, unfold, value0, value1),
            ValueV::RecordType(_, _) => lemma_same_fields(
                fuel,
                tables,
                len,
                unfold,
                value0,
                value1,
            ),
            ValueV::FormatRecord(_, _) => lemma_same_fields(
                fuel,
                tables,
                len,
                unfold,
                value0,
                value1,
            ),
            ValueV::FormatOverlap(_, _) => lemma_same_fields(
                fuel,
                tables,
                len,
                unfold,
                value0,
                value1,
            ),
            ValueV::RecordLit(_, _) => lemma_same_items(fuel, tables, len, unfold, value0, value1),
            ValueV::ArrayLit(_) => lemma_same_items(fuel, tables, len, unfold, value0, value1),
            ValueV::FormatCond(_, _, _) => lemma_same_conds(
                fuel,
                tables,
                len,
                unfold,
                value0,
                value1,
            ),
            ValueV::Universe => lemma_same_atoms(fuel, tables, len, unfold, value0, value1),
            ValueV::ConstLit(_) => lemma_same_atoms(fuel, tables, len, unfold, value0, value1),
        }
    }
}

proof fn lemma_same_stuck(
    fuel: nat,
    tables: TablesV,
    len: nat,
    unfold: bool,
    value0: ArcValueV,
    value1: ArcValueV,
)
    requires
        len <= max_len(),
        !is_reported_error(value0),
        !is_reported_error(value1),
        is_forced(tables.metas, value0),
        is_forced(tables.metas, value1),
        quote_forced(fuel, tables, len, unfold, value0) is Ok,
        quote_forced(fuel, tables, len, unfold, value0) == quote_forced(
            fuel,
            tables,
            len,
            unfold,
            value1,
        ),
        value0.value is Stuck,
    ensures
        says_yes(is_equal_forced(fuel, tables, len, value0, value1)),
    decreases fuel, 7nat, 0nat,
{
    lemma_forced_shape(fuel, tables, len, unfold, value0);
    lemma_forced_shape(fuel, tables, len, unfold, value1);
    match (value0.value, value1.value) {
        (ValueV::Stuck(head0, spine0), ValueV::Stuck(head1, spine1)) => {
            let head_term0 = quote_head(fuel, tables, len, unfold, value0.span, head0)->Ok_0;
            let head_term1 = quote_head(fuel, tables, len, unfold, value1.span, head1)->Ok_0;
            lemma_spine_depth(fuel, tables, len, unfold, value0.span, head_term0, spine0, 0);
            lemma_spine_depth(fuel, tables, len, unfold, value1.span, head_term1, spine1, 0);
            lemma_same_spines(
                fuel,
                tables,
                len,
                unfold,
                value0.span,
                value1.span,
                head_term0,
                head_term1,
                spine0,
                spine1,
                0,
            );
            assert(head0 == head1);
        },
        (_, _) => {},
    }
}

proof fn lemma_same_fun_types(
    fuel: nat,
    tables: TablesV,
    len: nat,
    unfold: bool,
    value0: ArcValueV,
    value1: ArcValueV,
)
    requires
        len <= max_len(),
        !is_reported_error(value0),
        !is_reported_error(value1),
        is_forced(tables.metas, value0),
        is_forced(tables.metas, value1),
        quote_forced(fuel, tables, len, unfold, value0) is Ok,
        quote_forced(fuel, tables, len, unfold, value0) == quote_forced(
            fuel,
            tables,
            len,
            unfold,
            value1,
        ),
        value0.value is FunType,
    ensures
        says_yes(is_equal_forced(fuel, tables, len, value0, value1)),
    decreases fuel, 7nat, 0nat,
{
    lemma_forced_shape(fuel, tables, len, unfold, value0);
    lemma_forced_shape(fuel, tables, len, unfold, value1);
    match (value0.value, value1.value) {
        (
            ValueV::FunType(_, param_type0, body_type0),
            ValueV::FunType(_, param_type1, body_type1),
        ) => {
            lemma_same_quote(fuel, tables, len, unfold, *param_type0, *param_type1);
            lemma_same_closures(fuel, tables, len, unfold, body_type0, body_type1);
        },
        (_, _) => {},
    }
}

proof fn lemma_same_fun_lits(
    fuel: nat,
    tables: TablesV,
    len: nat,
    unfold: bool,
    value0: ArcValueV,
    value1: ArcValueV,
)
    requires
        len <= max_len(),
        !is_reported_error(value0),
        !is_reported_error(value1),
        is_forced(tables.metas, value0),
        is_forced(tables.metas, value1),
        quote_forced(fuel, tables, len, unfold, value0) is Ok,
        quote_forced(fuel, tables, len, unfold, value0) == quote_forced(
            fuel,
            tables,
            len,
            unfold,
            value1,
        ),
        value0.value is FunLit,
    ensures
        says_yes(is_equal_forced(fuel, tables, len, value0, value1)),
    decreases fuel, 7nat, 0nat,
{
    lemma_forced_shape(fuel, tables, len, unfold, value0);
    lemma_forced_shape(fuel, tables, len, unfold, value1);
    match (value0.value, value1.value) {
        (ValueV::FunLit(_, body_expr0), ValueV::FunLit(_, body_expr1)) => {
            lemma_same_closures(fuel, tables, len, unfold, body_expr0, body_expr1);
        },
        (_, _) => {},
    }
}

proof fn lemma_same_fields(
    fuel: nat,
    tables: TablesV,
    len: nat,
    unfold: bool,
    value0: ArcValueV,
    value1: ArcValueV,
)
    requires
        len <= max_len(),
        !is_reported_error(value0),
        !is_reported_error(value1),
        is_forced(tables.metas, value0),
        is_forced(tables.metas, value1),
        quote_forced(fuel, tables, len, unfold, value0) is Ok,
        quote_forced(fuel, tables, len, unfold, value0) == quote_forced(
            fuel,
            tables,
            len,
            unfold,
            value1,
        ),
        value0.value is RecordType || value0.value is FormatRecord || value0.value is FormatOverlap,
    ensures
        says_yes(is_equal_forced(fuel, tables, len, value0, value1)),
    decreases fuel, 7nat, 0nat,
{
    lemma_forced_shape(fuel, tables, len, unfold, value0);
    lemma_forced_shape(fuel, tables, len, unfold, value1);
    match (value0.value, value1.value) {
        (ValueV::RecordType(_, types0), ValueV::RecordType(_, types1)) => {
            lemma_same_telescopes(fuel, tables, len, unfold, types0, types1);
        },
        (ValueV::FormatRecord(_, formats0), ValueV::FormatRecord(_, formats1)) => {
            lemma_same_telescopes(fuel, tables, len, unfold, formats0, formats1);
        },
        (ValueV::FormatOverlap(_, formats0), ValueV::FormatOverlap(_, formats1)) => {
            lemma_same_telescopes(fuel, tables, len, unfold, formats0, formats1);
        },
        (_, _) => {},
    }
}

proof fn lemma_same_items(
    fuel: nat,
    tables: TablesV,
    len: nat,
    unfold: bool,
    value0: ArcValueV,
    value1: ArcValueV,
)
    requires
        len <= max_len(),
        !is_reported_error(value0),
        !is_reported_error(value1),
        is_forced(tables.metas, value0),
        is_forced(tables.metas, value1),
        quote_forced(fuel, tables, len, unfold, value0) is Ok,
        quote_forced(fuel, tables, len, unfold, value0) == quote_forced(
            fuel,
            tables,
            len,
            unfold,
            value1,
        ),
        value0.value is RecordLit || value0.value is ArrayLit,
    ensures
        says_yes(is_equal_forced(fuel, tables, len, value0, value1)),
    decreases fuel, 7nat, 0nat,
{
    lemma_forced_shape(fuel, tables, len, unfold, value0);
    lemma_forced_shape(fuel, tables, len, unfold, value1);
    match (value0.value, value1.value) {
        (ValueV::RecordLit(_, exprs0), ValueV::RecordLit(_, exprs1)) => {
            lemma_all_len(fuel, tables, len, unfold, exprs0, 0);
            lemma_all_len(fuel, tables, len, unfold, exprs1, 0);
            lemma_same_all(fuel, tables, len, unfold, exprs0, exprs1, 0);
        },
        (ValueV::ArrayLit(exprs0), ValueV::ArrayLit(exprs1)) => {
            lemma_all_len(fuel, tables, len, unfold, exprs0, 0);
            lemma_all_len(fuel, tables, len, unfold, exprs1, 0);
            lemma_same_all(fuel, tables, len, unfold, exprs0, exprs1, 0);
        },
        (_, _) => {},
    }
}

proof fn lemma_same_conds(
    fuel: nat,
    tables: TablesV,
    len: nat,
    unfold: bool,
    value0: ArcValueV,
    value1: ArcValueV,
)
    requires
        len <= max_len(),
        !is_reported_error(value0),
        !is_reported_error(value1),
        is_forced(tables.metas, value0),
        is_forced(tables.metas, value1),
        quote_forced(fuel, tables, len, unfold, value0) is Ok,
        quote_forced(fuel, tables, len, unfold, value0) == quote_forced(
            fuel,
            tables,
            len,
            unfold,
            value1,
        ),
        value0.value is FormatCond,
    ensures
        says_yes(is_equal_forced(fuel, tables, len, value0, value1)),
    decreases fuel, 7nat, 0nat,
{
    lemma_forced_shape(fuel, tables, len, unfold, value0);
    lemma_forced_shape(fuel, tables, len, unfold, value1);
    match (value0.value, value1.value) {
        (ValueV::FormatCond(_, format0, cond0), ValueV::FormatCond(_, format1, cond1)) => {
            lemma_same_quote(fuel, tables, len, unfold, *format0, *format1);
            lemma_same_closures(fuel, tables, len, unfold, cond0, cond1);
        },
        (_, _) => {},
    }
}

proof fn lemma_same_atoms(
    fuel: nat,
    tables: TablesV,
    len: nat,
    unfold: bool,
    value0: ArcValueV,
    value1: ArcValueV,
)
    requires
        !is_reported_error(value0),
        !is_reported_error(value1),
        is_forced(tables.metas, value0),
        quote_forced(fuel, tables, len, unfold, value1) is Ok,
        value0.value is Universe && quote_forced(fuel, tables, len, unfold, value1)->Ok_0
            is Universe || value0.value is ConstLit && quote_forced(
            fuel,
            tables,
            len,
            unfold,
            value1,
        )->Ok_0 == TermV::ConstLit(value0.span, value0.value->ConstLit_0),
        is_forced(tables.metas, value1),
        len <= max_len(),
    ensures
        says_yes(is_equal_forced(fuel, tables, len, value0, value1)),
{
    lemma_forced_shape(fuel, tables, len, unfold, value1);
    match (value0.value, value1.value) {
        (ValueV::Universe, ValueV::Universe) => {},
        (ValueV::ConstLit(const0), ValueV::ConstLit(const1)) => {
            lemma_const_same(const0);
        },
        (_, _) => {},
    }
}

/// The shape of the term that a forced value is read back into is that of
/// the value.
proof fn lemma_forced_shape(fuel: nat, tables: TablesV, len: nat, unfold: bool, value: ArcValueV)
    requires
        len <= max_len(),
        is_forced(tables.metas, value),
        quote_forced(fuel, tables, len, unfold, value) is Ok,
    ensures
        ({
            let term = quote_forced(fuel, tables, len, unfold, value)->Ok_0;
            match value.value {
                ValueV::Stuck(head, spine) => quote_head(
                    fuel,
                    tables,
                    len,
                    unfold,
                    value.span,
                    head,
                ) matches Ok(head_term) && depth(head_term) == 0 && (head_term is Prim
                    || head_term is LocalVar || head_term is MetaVar) && (term is Prim
                    || term is LocalVar || term is MetaVar || term is FunApp
                    || term is RecordProj || term is ConstMatch),
                ValueV::Universe => term is Universe,
                ValueV::FunType(_, _, _) => term is FunType,
                ValueV::FunLit(_, _) => term is FunLit,
                ValueV::RecordType(_, _) => term is RecordType,
                ValueV::RecordLit(_, _) => term is RecordLit,
                ValueV::ArrayLit(_) => term is ArrayLit,
                ValueV::FormatRecord(_, _) => term is FormatRecord,
                ValueV::FormatCond(_, _, _) => term is FormatCond,
                ValueV::FormatOverlap(_, _) => term is FormatOverlap,
                ValueV::ConstLit(_) => term is ConstLit,
            }
        }),
{
    match value.value {
        ValueV::Stuck(head, spine) => {
            let head_term = quote_head(fuel, tables, len, unfold, value.span, head)->Ok_0;
            lemma_spine_depth(fuel, tables, len, unfold, value.span, head_term, spine, 0);
            if spine.len() > 0 {
                let term = quote_forced(fuel, tables, len, unfold, value)->Ok_0;
                assert(depth(term) > 0);
            }
        },
        _ => {},
    }
}

/// Two spines that are read back into the same term, around terms of the
/// same depth, are of the same length, stand around the same term, and are
/// pointwise convertible.
proof fn lemma_same_spines(
    fuel: nat,
    tables: TablesV,
    len: nat,
    unfold: bool,
    span0: Span,
    span1: Span,
    head0: TermV,
    head1: TermV,
    spine0: Seq<ElimV>,
    spine1: Seq<ElimV>,
    from: int,
)
    requires
        len <= max_len(),
        0 <= from <= spine0.len(),
        spine0.len() == spine1.len(),
        quote_spine(fuel, tables, len, unfold, span0, head0, spine0, from) is Ok,
        quote_spine(fuel, tables, len, unfold, span0, head0, spine0, from) == quote_spine(
            fuel,
            tables,
            len,
            unfold,
            span1,
            head1,
            spine1,
            from,
        ),
    ensures
        head0 == head1,
        says_yes(is_equal_spines(fuel, tables, len, spine0, spine1, from)),
    decreases fuel, 5nat, spine0.len() - from,
{
    if from < spine0.len() {
        let next0 = quote_elim(fuel, tables, len, unfold, span0, head0, spine0[from]);
        let next1 = quote_elim(fuel, tables, len, unfold, span1, head1, spine1[from]);
        assert(next0 is Ok);
        assert(next1 is Ok);
        lemma_same_spines(
            fuel,
            tables,
            len,
            unfold,
            span0,
            span1,
            next0->Ok_0,
            next1->Ok_0,
            spine0,
            spine1,
            from + 1,
        );
        match (spine0[from], spine1[from]) {
            (ElimV::FunApp(arg0), ElimV::FunApp(arg1)) => {
                lemma_same_quote(fuel, tables, len, unfold, arg0, arg1);
            },
            (ElimV::ConstMatch(branches0), ElimV::ConstMatch(branches1)) => {
                lemma_same_branches(fuel, tables, len, unfold, branches0, branches1);
            },
            (_, _) => {},
        }
        assert(says_yes(is_equal_elims(fuel, tables, len, spine0[from], spine1[from])));
    }
}

proof fn lemma_same_closures(
    fuel: nat,
    tables: TablesV,
    len: nat,
    unfold: bool,
    closure0: ClosureV,
    closure1: ClosureV,
)
    requires
        len <= max_len(),
        quote_closure(fuel, tables, len, unfold, closure0) is Ok,
        quote_closure(fuel, tables, len, unfold, closure0) == quote_closure(
            fuel,
            tables,
            len,
            unfold,
            closure1,
        ),
    ensures
        says_yes(is_equal_closures(fuel, tables, len, closure0, closure1)),
    decreases fuel, 2nat, 0nat,
{
    let value0 = apply_closure(fuel, tables, closure0, fresh_var(len))->Ok_0;
    let value1 = apply_closure(fuel, tables, closure1, fresh_var(len))->Ok_0;
    lemma_same_quote(fuel, tables, len + 1, unfold, value0, value1);
}

proof fn lemma_same_all(
    fuel: nat,
    tables: TablesV,
    len: nat,
    unfold: bool,
    exprs0: Seq<ArcValueV>,
    exprs1: Seq<ArcValueV>,
    from: int,
)
    requires
        len <= max_len(),
        0 <= from <= exprs0.len(),
        exprs0.len() == exprs1.len(),
        quote_all(fuel, tables, len, unfold, exprs0, from) is Ok,
        quote_all(fuel, tables, len, unfold, exprs0, from) == quote_all(
            fuel,
            tables,
            len,
            unfold,
            exprs1,
            from,
        ),
    ensures
        says_yes(is_equal_all(fuel, tables, len, exprs0, exprs1, from)),
    decreases fuel, 1nat, exprs0.len() - from,
{
    if from < exprs0.len() {
        let term0 = quote(fuel, tables, len, unfold, exprs0[from])->Ok_0;
        let term1 = quote(fuel, tables, len, unfold, exprs1[from])->Ok_0;
        let rest0 = quote_all(fuel, tables, len, unfold, exprs0, from + 1)->Ok_0;
        let rest1 = quote_all(fuel, tables, len, unfold, exprs1, from + 1)->Ok_0;
        lemma_cons_injective(term0, rest0, term1, rest1);
        lemma_same_quote(fuel, tables, len, unfold, exprs0[from], exprs1[from]);
        lemma_same_all(fuel, tables, len, unfold, exprs0, exprs1, from + 1);
    }
}

proof fn lemma_same_telescopes(
    fuel: nat,
    tables: TablesV,
    len: nat,
    unfold: bool,
    telescope0: TelescopeV,
    telescope1: TelescopeV,
)
    requires
        len <= max_len(),
        quote_telescope(fuel, tables, len, unfold, telescope0) is Ok,
        quote_telescope(fuel, tables, len, unfold, telescope0) == quote_telescope(
            fuel,
            tables,
            len,
            unfold,
            telescope1,
        ),
    ensures
        says_yes(is_equal_telescopes(fuel, tables, len, telescope0, telescope1)),
    decreases fuel, 2nat, 0nat,
{
    lemma_telescope_len(fuel, tables, len, unfold, telescope0);
    lemma_telescope_len(fuel, tables, len, unfold, telescope1);
    lemma_same_values(fuel, tables, len, unfold, telescope0, telescope1);
}

proof fn lemma_same_values(
    fuel: nat,
    tables: TablesV,
    len: nat,
    unfold: bool,
    telescope0: TelescopeV,
    telescope1: TelescopeV,
)
    requires
        len <= max_len(),
        quote_telescope(fuel, tables, len, unfold, telescope0) is Ok,
        quote_telescope(fuel, tables, len, unfold, telescope0) == quote_telescope(
            fuel,
            tables,
            len,
            unfold,
            telescope1,
        ),
    ensures
        says_yes(is_equal_values(fuel, tables, len, telescope0, telescope1)),
    decreases fuel, 1nat, telescope0.terms.len(),
{
    match (split_telescope(fuel, tables, telescope0), split_telescope(fuel, tables, telescope1)) {
        (Ok(Some((value0, rest0))), Ok(Some((value1, rest1)))) => {
            let term0 = quote(fuel, tables, len, unfold, value0)->Ok_0;
            let term1 = quote(fuel, tables, len, unfold, value1)->Ok_0;
            let next0 = resume_telescope(rest0, fresh_var(len));
            let next1 = resume_telescope(rest1, fresh_var(len));
            let terms0 = quote_telescope(fuel, tables, len + 1, unfold, next0)->Ok_0;
            let terms1 = quote_telescope(fuel, tables, len + 1, unfold, next1)->Ok_0;
            lemma_cons_injective(term0, terms0, term1, terms1);
            lemma_same_quote(fuel, tables, len, unfold, value0, value1);
            lemma_same_values(fuel, tables, len + 1, unfold, next0, next1);
        },
        _ => {},
    }
}

proof fn lemma_same_branches(
    fuel: nat,
    tables: TablesV,
    len: nat,
    unfold: bool,
    branches0: BranchesV,
    branches1: BranchesV,
)
    requires
        len <= max_len(),
        quote_branches(fuel, tables, len, unfold, branches0) is Ok,
        quote_branches(fuel, tables, len, unfold, branches0) == quote_branches(
            fuel,
            tables,
            len,
            unfold,
            branches1,
        ),
    ensures
        says_yes(is_equal_branches(fuel, tables, len, branches0, branches1)),
    decreases fuel, 3nat, branches0.pattern_branches.len(),
{
    match (split_branches(fuel, tables, branches0), split_branches(fuel, tables, branches1)) {
        (
            Ok(SplitBranchesV::Branch((const0, body0), next0)),
            Ok(SplitBranchesV::Branch((const1, body1), next1)),
        ) => {
            let term0 = quote(fuel, tables, len, unfold, body0)->Ok_0;
            let term1 = quote(fuel, tables, len, unfold, body1)->Ok_0;
            let rest0 = quote_branches(fuel, tables, len, unfold, next0)->Ok_0;
            let rest1 = quote_branches(fuel, tables, len, unfold, next1)->Ok_0;
            lemma_cons_injective((const0, term0), rest0.0, (const1, term1), rest1.0);
            lemma_same_quote(fuel, tables, len, unfold, body0, body1);
            lemma_same_branches(fuel, tables, len, unfold, next0, next1);
        },
        (
            Ok(SplitBranchesV::Branch((const0, body0), next0)),
            Ok(SplitBranchesV::Default(_)),
        ) => {
            let term0 = quote(fuel, tables, len, unfold, body0)->Ok_0;
            let rest0 = quote_branches(fuel, tables, len, unfold, next0)->Ok_0;
            assert((seq![(const0, term0)] + rest0.0).len() > 0);
        },
        (Ok(SplitBranchesV::Branch((const0, body0), next0)), Ok(SplitBranchesV::End)) => {
            let term0 = quote(fuel, tables, len, unfold, body0)->Ok_0;
            let rest0 = quote_branches(fuel, tables, len, unfold, next0)->Ok_0;
            assert((seq![(const0, term0)] + rest0.0).len() > 0);
        },
        (
            Ok(SplitBranchesV::Default(_)),
            Ok(SplitBranchesV::Branch((const1, body1), next1)),
        ) => {
            let term1 = quote(fuel, tables, len, unfold, body1)->Ok_0;
            let rest1 = quote_branches(fuel, tables, len, unfold, next1)->Ok_0;
            assert((seq![(const1, term1)] + rest1.0).len() > 0);
        },
        (Ok(SplitBranchesV::End), Ok(SplitBranchesV::Branch((const1, body1), next1))) => {
            let term1 = quote(fuel, tables, len, unfold, body1)->Ok_0;
            let rest1 = quote_branches(fuel, tables, len, unfold, next1)->Ok_0;
            assert((seq![(const1, term1)] + rest1.0).len() > 0);
        },
        (Ok(SplitBranchesV::Default(default0)), Ok(SplitBranchesV::Default(default1))) => {
            lemma_same_closures(fuel, tables, len, unfold, default0, default1);
        },
        (_, _) => {},
    }
}

/// Conversion respects normalisation: two terms with the same normal form
/// have values that are convertible. A comparison of the values says yes,
/// within the budget of the normalisation.
pub proof fn lemma_same_normal_form(
    fuel: nat,
    tables: TablesV,
    locals: Seq<ArcValueV>,
    term0: TermV,
    term1: TermV,
)
    requires
        locals.len() <= max_len(),
        normalise(fuel, tables, locals, term0) is Ok,
        normalise(fuel, tables, locals, term0) == normalise(fuel, tables, locals, term1),
    ensures
        says_yes(
            is_equal(
                fuel,
                tables,
                locals.len(),
                eval(fuel, tables, locals, term0)->Ok_0,
                eval(fuel, tables, locals, term1)->Ok_0,
            ),
        ),
{
    lemma_same_quote(
        fuel,
        tables,
        locals.len(),
        false,
        eval(fuel, tables, locals, term0)->Ok_0,
        eval(fuel, tables, locals, term1)->Ok_0,
    );
}

/// A value that quotation can read back is convertible to itself: the
/// comparison says yes, within the budget that quotation had.
pub proof fn lemma_quoted_is_equal(
    fuel: nat,
    tables: TablesV,
    len: nat,
    unfold: bool,
    value: ArcValueV,
)
    requires
        len <= max_len(),
        quote(fuel, tables, len, unfold, value) is Ok,
    ensures
        is_equal(fuel, tables, len, value, value) == Ok::<bool, Stop>(true),
{
    lemma_same_quote(fuel, tables, len, unfold, value, value);
}

} // verus!
