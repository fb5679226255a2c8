//! A term whose metavariables have been unfolded mentions no metavariable
//! that has a solution: what it means no longer rests on the solutions.

use crate::core_lang::laws::{is_forced, lemma_force_is_forced};
use crate::core_lang::model::{
    apply_closure, apply_local_infos, force, fresh_var, max_len,
    meta_solution, quote, quote_all, quote_branches, quote_closure, quote_forced, quote_head,
    quote_spine, quote_telescope, resume_telescope, split_branches,
    split_telescope, unfold_all_metas, unfold_bound_metas, unfold_branch_metas, unfold_metas,
    unfold_spine_metas, unfold_telescope_metas, ArcValueV, BranchesV, ClosureV, ElimV, SplitBranchesV, Stop, TablesV, TelescopeV, TermOrValueV, ValueV,
};
use crate::core_lang::normal_forms::quote_elim;
use crate::core_lang::occurs::{branches_avoid, term_avoids, terms_avoid};
use crate::core_lang::{Const, TermV};
use crate::env::Level;
use crate::source::Span;
use vstd::prelude::*;

verus! {

/// Whether the metavariable has a solution.
pub open spec fn is_solved(metas: Seq<Option<ArcValueV>>, meta_var: Level) -> bool {
    meta_var.0 < metas.len() && metas[meta_var.0 as int] is Some
}

/// Whether a term that was computed mentions the metavariable nowhere.
pub open spec fn is_free(meta_var: Level, result: Result<TermV, Stop>) -> bool {
    match result {
        Ok(term) => term_avoids(meta_var, term),
        Err(_) => true,
    }
}

/// Whether the terms that were computed mention the metavariable nowhere.
pub open spec fn are_free(meta_var: Level, result: Result<Seq<TermV>, Stop>) -> bool {
    match result {
        Ok(terms) => terms_avoid(meta_var, terms),
        Err(_) => true,
    }
}

/// The term that quotation reads a value back into mentions no
/// metavariable that has a solution.
pub proof fn lemma_quote_solved(
    fuel: nat,
    tables: TablesV,
    len: nat,
    meta_var: Level,
    value: ArcValueV,
)
    requires
        is_solved(tables.metas, meta_var),
    ensures
        is_free(meta_var, quote(fuel, tables, len, false, value)),
    decreases fuel, 0nat, 0nat,
{
    if fuel > 0 {
        let f = (fuel - 1) as nat;
        match force(f, tables, value) {
            Ok(forced) => {
                lemma_force_is_forced(f, tables, value);
                lemma_quote_forced_solved(f, tables, len, meta_var, forced);
            },
            Err(_) => {},
        }
    }
}

proof fn lemma_quote_forced_solved(
    fuel: nat,
    tables: TablesV,
    len: nat,
    meta_var: Level,
    value: ArcValueV,
)
    requires
        is_solved(tables.metas, meta_var),
        is_forced(tables.metas, value),
    ensures
        is_free(meta_var, quote_forced(fuel, tables, len, false, value)),
    decreases fuel, 5nat, 0nat,
{
    let span = value.span;
    match value.value {
        ValueV::Stuck(head, spine) => {
            match quote_head(fuel, tables, len, false, span, head) {
                Ok(head_term) => {
                    lemma_quote_spine_solved(fuel, tables, len, meta_var, span, head_term, spine, 0);
                },
                Err(_) => {},
            }
        },
        ValueV::FunType(_, param_type, body_type) => {
            lemma_quote_solved(fuel, tables, len, meta_var, *param_type);
            lemma_quote_closure_solved(fuel, tables, len, meta_var, body_type);
        },
        ValueV::FunLit(_, body_expr) => {
            lemma_quote_closure_solved(fuel, tables, len, meta_var, body_expr);
        },
        ValueV::RecordType(labels, types) => {
            lemma_quote_telescope_solved(fuel, tables, len, meta_var, types);
            match quote_telescope(fuel, tables, len, false, types) {
                Ok(terms) => {
                    let term = TermV::RecordType(span, labels, terms);
                    assert forall|i: int| 0 <= i < terms.len() implies term_avoids(
                        meta_var,
                        #[trigger] term->RecordType_2[i],
                    ) by {
                        assert(term_avoids(meta_var, terms[i]));
                    }
                },
                Err(_) => {},
            }
        },
        ValueV::RecordLit(labels, exprs) => {
            lemma_quote_all_solved(fuel, tables, len, meta_var, exprs, 0);
            match quote_all(fuel, tables, len, false, exprs, 0) {
                Ok(terms) => {
                    let term = TermV::RecordLit(span, labels, terms);
                    assert forall|i: int| 0 <= i < terms.len() implies term_avoids(
                        meta_var,
                        #[trigger] term->RecordLit_2[i],
                    ) by {
                        assert(term_avoids(meta_var, terms[i]));
                    }
                },
                Err(_) => {},
            }
        },
        ValueV::ArrayLit(exprs) => {
            lemma_quote_all_solved(fuel, tables, len, meta_var, exprs, 0);
            match quote_all(fuel, tables, len, false, exprs, 0) {
                Ok(terms) => {
                    let term = TermV::ArrayLit(span, terms);
                    assert forall|i: int| 0 <= i < terms.len() implies term_avoids(
                        meta_var,
                        #[trigger] term->ArrayLit_1[i],
                    ) by {
                        assert(term_avoids(meta_var, terms[i]));
                    }
                },
                Err(_) => {},
            }
        },
        ValueV::FormatRecord(labels, formats) => {
            lemma_quote_telescope_solved(fuel, tables, len, meta_var, formats);
            match quote_telescope(fuel, tables, len, false, formats) {
                Ok(terms) => {
                    let term = TermV::FormatRecord(span, labels, terms);
                    assert forall|i: int| 0 <= i < terms.len() implies term_avoids(
                        meta_var,
                        #[trigger] term->FormatRecord_2[i],
                    ) by {
                        assert(term_avoids(meta_var, terms[i]));
                    }
                },
                Err(_) => {},
            }
        },
        ValueV::FormatCond(_, format, cond) => {
            lemma_quote_solved(fuel, tables, len, meta_var, *format);
            lemma_quote_closure_solved(fuel, tables, len, meta_var, cond);
        },
        ValueV::FormatOverlap(labels, formats) => {
            lemma_quote_telescope_solved(fuel, tables, len, meta_var, formats);
            match quote_telescope(fuel, tables, len, false, formats) {
                Ok(terms) => {
                    let term = TermV::FormatOverlap(span, labels, terms);
                    assert forall|i: int| 0 <= i < terms.len() implies term_avoids(
                        meta_var,
                        #[trigger] term->FormatOverlap_2[i],
                    ) by {
                        assert(term_avoids(meta_var, terms[i]));
                    }
                },
                Err(_) => {},
            }
        },
        _ => {},
    }
}

proof fn lemma_quote_spine_solved(
    fuel: nat,
    tables: TablesV,
    len: nat,
    meta_var: Level,
    span: Span,
    head: TermV,
    spine: Seq<ElimV>,
    from: int,
)
    requires
        is_solved(tables.metas, meta_var),
        term_avoids(meta_var, head),
    ensures
        is_free(meta_var, quote_spine(fuel, tables, len, false, span, head, spine, from)),
    decreases fuel, 4nat, spine.len() - from,
{
    if !(from < 0 || from >= spine.len()) {
        match spine[from] {
            ElimV::FunApp(arg) => {
                lemma_quote_solved(fuel, tables, len, meta_var, arg);
            },
            ElimV::RecordProj(_) => {},
            ElimV::ConstMatch(branches) => {
                lemma_quote_branches_solved(fuel, tables, len, meta_var, branches);
                match quote_branches(fuel, tables, len, false, branches) {
                    Ok((terms, default_expr)) => {
                        let term = TermV::ConstMatch(
                            span,
                            Box::new(head),
                            terms,
                            match default_expr {
                                Some(expr) => Some(Box::new(expr)),
                                None => None,
                            },
                        );
                        assert forall|i: int| 0 <= i < terms.len() implies term_avoids(
                            meta_var,
                            (#[trigger] term->ConstMatch_2[i]).1,
                        ) by {
                            assert(term_avoids(meta_var, terms[i].1));
                        }
                    },
                    Err(_) => {},
                }
            },
        }
        match quote_elim(fuel, tables, len, false, span, head, spine[from]) {
            Ok(next) => {
                lemma_quote_spine_solved(fuel, tables, len, meta_var, span, next, spine, from + 1);
            },
            Err(_) => {},
        }
    }
}

proof fn lemma_quote_branches_solved(
    fuel: nat,
    tables: TablesV,
    len: nat,
    meta_var: Level,
    branches: BranchesV,
)
    requires
        is_solved(tables.metas, meta_var),
    ensures
        quote_branches(fuel, tables, len, false, branches) matches Ok((terms, default_expr))
            ==> branches_avoid(meta_var, terms, default_expr),
    decreases fuel, 2nat, branches.pattern_branches.len(),
{
    match split_branches(fuel, tables, branches) {
        Ok(SplitBranchesV::Branch((constant, body), next)) => {
            lemma_quote_solved(fuel, tables, len, meta_var, body);
            lemma_quote_branches_solved(fuel, tables, len, meta_var, next);
            match (
                quote(fuel, tables, len, false, body),
                quote_branches(fuel, tables, len, false, next),
            ) {
                (Ok(term), Ok((rest, _))) => {
                    let all = seq![(constant, term)] + rest;
                    assert forall|i: int| 0 <= i < all.len() implies term_avoids(
                        meta_var,
                        (#[trigger] all[i]).1,
                    ) by {
                        if i > 0 {
                            assert(all[i] == rest[i - 1]);
                        }
                    }
                },
                _ => {},
            }
        },
        Ok(SplitBranchesV::Default(default_expr)) => {
            lemma_quote_closure_solved(fuel, tables, len, meta_var, default_expr);
        },
        _ => {},
    }
}

proof fn lemma_quote_closure_solved(
    fuel: nat,
    tables: TablesV,
    len: nat,
    meta_var: Level,
    closure: ClosureV,
)
    requires
        is_solved(tables.metas, meta_var),
    ensures
        is_free(meta_var, quote_closure(fuel, tables, len, false, closure)),
    decreases fuel, 1nat, 0nat,
{
    match apply_closure(fuel, tables, closure, fresh_var(len)) {
        Ok(value) => {
            lemma_quote_solved(fuel, tables, len + 1, meta_var, value);
        },
        Err(_) => {},
    }
}

proof fn lemma_quote_telescope_solved(
    fuel: nat,
    tables: TablesV,
    len: nat,
    meta_var: Level,
    telescope: TelescopeV,
)
    requires
        is_solved(tables.metas, meta_var),
    ensures
        are_free(meta_var, quote_telescope(fuel, tables, len, false, telescope)),
    decreases fuel, 1nat, telescope.terms.len(),
{
    match split_telescope(fuel, tables, telescope) {
        Ok(Some((value, rest))) => {
            lemma_quote_solved(fuel, tables, len, meta_var, value);
            let next = resume_telescope(rest, fresh_var(len));
            lemma_quote_telescope_solved(fuel, tables, len + 1, meta_var, next);
            match (
                quote(fuel, tables, len, false, value),
                quote_telescope(fuel, tables, len + 1, false, next),
            ) {
                (Ok(term), Ok(terms)) => {
                    let all = seq![term] + terms;
                    assert forall|i: int| 0 <= i < all.len() implies term_avoids(
                        meta_var,
                        #[trigger] all[i],
                    ) by {
                        if i > 0 {
                            assert(all[i] == terms[i - 1]);
                        }
                    }
                },
                _ => {},
            }
        },
        _ => {},
    }
}

proof fn lemma_quote_all_solved(
    fuel: nat,
    tables: TablesV,
    len: nat,
    meta_var: Level,
    values: Seq<ArcValueV>,
    from: int,
)
    requires
        is_solved(tables.metas, meta_var),
    ensures
        are_free(meta_var, quote_all(fuel, tables, len, false, values, from)),
    decreases fuel, 1nat, values.len() - from,
{
    if !(from < 0 || from >= values.len()) {
        lemma_quote_solved(fuel, tables, len, meta_var, values[from]);
        lemma_quote_all_solved(fuel, tables, len, meta_var, values, from + 1);
        match (
            quote(fuel, tables, len, false, values[from]),
            quote_all(fuel, tables, len, false, values, from + 1),
        ) {
            (Ok(term), Ok(terms)) => {
                let all = seq![term] + terms;
                assert forall|i: int| 0 <= i < all.len() implies term_avoids(
                    meta_var,
                    #[trigger] all[i],
                ) by {
                    if i > 0 {
                        assert(all[i] == terms[i - 1]);
                    }
                }
            },
            _ => {},
        }
    }
}

/// A term whose metavariables have been unfolded mentions no metavariable
/// that has a solution.
pub proof fn lemma_unfold_metas_solved(
    fuel: nat,
    tables: TablesV,
    locals: Seq<ArcValueV>,
    meta_var: Level,
    term: TermV,
)
    requires
        is_solved(tables.metas, meta_var),
    ensures
        is_free(meta_var, unfold_metas(fuel, tables, locals, term)),
    decreases fuel, 0nat, 0nat,
{
    if fuel > 0 {
        let f = (fuel - 1) as nat;
        match term {
            TermV::MetaVar(_, _) | TermV::FunApp(_, _, _) | TermV::RecordProj(_, _, _)
            | TermV::ConstMatch(_, _, _, _) => {
                lemma_unfold_spine_solved(f, tables, locals, meta_var, term);
                match unfold_spine_metas(f, tables, locals, term) {
                    Ok(TermOrValueV::Value(value)) => {
                        lemma_quote_solved(f, tables, locals.len(), meta_var, value);
                    },
                    _ => {},
                }
            },
            TermV::InsertedMeta(_, var, infos) => {
                match meta_solution(tables, var) {
                    Ok(Some(value)) => {
                        match apply_local_infos(f, tables, value, infos, locals, 0) {
                            Ok(applied) => {
                                lemma_quote_solved(f, tables, locals.len(), meta_var, applied);
                            },
                            Err(_) => {},
                        }
                    },
                    _ => {},
                }
            },
            TermV::Ann(_, expr, ty) => {
                lemma_unfold_metas_solved(f, tables, locals, meta_var, *expr);
                lemma_unfold_metas_solved(f, tables, locals, meta_var, *ty);
            },
            TermV::Let(_, _, def_type, def_expr, body_expr) => {
                lemma_unfold_metas_solved(f, tables, locals, meta_var, *def_type);
                lemma_unfold_metas_solved(f, tables, locals, meta_var, *def_expr);
                lemma_unfold_bound_solved(f, tables, locals, meta_var, *body_expr);
            },
            TermV::FunType(_, _, param_type, body_type) => {
                lemma_unfold_metas_solved(f, tables, locals, meta_var, *param_type);
                lemma_unfold_bound_solved(f, tables, locals, meta_var, *body_type);
            },
            TermV::FunLit(_, _, body_expr) => {
                lemma_unfold_bound_solved(f, tables, locals, meta_var, *body_expr);
            },
            TermV::RecordType(span, labels, terms) => {
                lemma_telescope_unfolded(f, tables, locals, meta_var, terms, 0);
                match unfold_telescope_metas(f, tables, locals, terms, 0) {
                    Ok(unfolded) => {
                        let term = TermV::RecordType(span, labels, unfolded);
                        assert forall|i: int| 0 <= i < unfolded.len() implies term_avoids(
                            meta_var,
                            #[trigger] term->RecordType_2[i],
                        ) by {
                            assert(term_avoids(meta_var, unfolded[i]));
                        }
                    },
                    Err(_) => {},
                }
            },
            TermV::RecordLit(span, labels, terms) => {
                lemma_all_unfolded(f, tables, locals, meta_var, terms, 0);
                match unfold_all_metas(f, tables, locals, terms, 0) {
                    Ok(unfolded) => {
                        let term = TermV::RecordLit(span, labels, unfolded);
                        assert forall|i: int| 0 <= i < unfolded.len() implies term_avoids(
                            meta_var,
                            #[trigger] term->RecordLit_2[i],
                        ) by {
                            assert(term_avoids(meta_var, unfolded[i]));
                        }
                    },
                    Err(_) => {},
                }
            },
            TermV::ArrayLit(span, terms) => {
                lemma_all_unfolded(f, tables, locals, meta_var, terms, 0);
                match unfold_all_metas(f, tables, locals, terms, 0) {
                    Ok(unfolded) => {
                        let term = TermV::ArrayLit(span, unfolded);
                        assert forall|i: int| 0 <= i < unfolded.len() implies term_avoids(
                            meta_var,
                            #[trigger] term->ArrayLit_1[i],
                        ) by {
                            assert(term_avoids(meta_var, unfolded[i]));
                        }
                    },
                    Err(_) => {},
                }
            },
            TermV::FormatRecord(span, labels, terms) => {
                lemma_telescope_unfolded(f, tables, locals, meta_var, terms, 0);
                match unfold_telescope_metas(f, tables, locals, terms, 0) {
                    Ok(unfolded) => {
                        let term = TermV::FormatRecord(span, labels, unfolded);
                        assert forall|i: int| 0 <= i < unfolded.len() implies term_avoids(
                            meta_var,
                            #[trigger] term->FormatRecord_2[i],
                        ) by {
                            assert(term_avoids(meta_var, unfolded[i]));
                        }
                    },
                    Err(_) => {},
                }
            },
            TermV::FormatOverlap(span, labels, terms) => {
                lemma_telescope_unfolded(f, tables, locals, meta_var, terms, 0);
                match unfold_telescope_metas(f, tables, locals, terms, 0) {
                    Ok(unfolded) => {
                        let term = TermV::FormatOverlap(span, labels, unfolded);
                        assert forall|i: int| 0 <= i < unfolded.len() implies term_avoids(
                            meta_var,
                            #[trigger] term->FormatOverlap_2[i],
                        ) by {
                            assert(term_avoids(meta_var, unfolded[i]));
                        }
                    },
                    Err(_) => {},
                }
            },
            TermV::FormatCond(_, _, format, pred) => {
                lemma_unfold_metas_solved(f, tables, locals, meta_var, *format);
                lemma_unfold_bound_solved(f, tables, locals, meta_var, *pred);
            },
            _ => {},
        }
    }
}

/// Whether what unfolding a spine gave mentions the metavariable nowhere,
/// where it is a term.
pub open spec fn is_free_spine(meta_var: Level, result: Result<TermOrValueV, Stop>) -> bool {
    match result {
        Ok(TermOrValueV::Term(term)) => term_avoids(meta_var, term),
        _ => true,
    }
}

proof fn lemma_unfold_spine_solved(
    fuel: nat,
    tables: TablesV,
    locals: Seq<ArcValueV>,
    meta_var: Level,
    term: TermV,
)
    requires
        is_solved(tables.metas, meta_var),
    ensures
        is_free_spine(meta_var, unfold_spine_metas(fuel, tables, locals, term)),
    decreases fuel, 0nat, 0nat,
{
    if fuel > 0 {
        let f = (fuel - 1) as nat;
        match term {
            TermV::MetaVar(_, _) => {},
            TermV::InsertedMeta(_, _, _) => {},
            TermV::FunApp(_, head_expr, arg_expr) => {
                lemma_unfold_spine_solved(f, tables, locals, meta_var, *head_expr);
                lemma_unfold_metas_solved(f, tables, locals, meta_var, *arg_expr);
            },
            TermV::RecordProj(_, head_expr, _) => {
                lemma_unfold_spine_solved(f, tables, locals, meta_var, *head_expr);
            },
            TermV::ConstMatch(span, head_expr, branches, default_expr) => {
                lemma_unfold_spine_solved(f, tables, locals, meta_var, *head_expr);
                lemma_branches_unfolded(f, tables, locals, meta_var, branches, 0);
                match default_expr {
                    Some(default_expr) => {
                        lemma_unfold_bound_solved(f, tables, locals, meta_var, *default_expr);
                    },
                    None => {},
                }
                match (
                    unfold_spine_metas(f, tables, locals, *head_expr),
                    unfold_branch_metas(f, tables, locals, branches, 0),
                ) {
                    (Ok(TermOrValueV::Term(head)), Ok(unfolded)) => {
                        match default_expr {
                            Some(default_expr) => {
                                match unfold_bound_metas(f, tables, locals, *default_expr) {
                                    Ok(default_term) => {
                                        let whole = TermV::ConstMatch(
                                            span,
                                            Box::new(head),
                                            unfolded,
                                            Some(Box::new(default_term)),
                                        );
                                        assert forall|i: int|
                                            0 <= i < unfolded.len() implies term_avoids(
                                            meta_var,
                                            (#[trigger] whole->ConstMatch_2[i]).1,
                                        ) by {
                                            assert(term_avoids(meta_var, unfolded[i].1));
                                        }
                                    },
                                    Err(_) => {},
                                }
                            },
                            None => {
                                let whole = TermV::ConstMatch(
                                    span,
                                    Box::new(head),
                                    unfolded,
                                    None,
                                );
                                assert forall|i: int| 0 <= i < unfolded.len() implies term_avoids(
                                    meta_var,
                                    (#[trigger] whole->ConstMatch_2[i]).1,
                                ) by {
                                    assert(term_avoids(meta_var, unfolded[i].1));
                                }
                            },
                        }
                    },
                    _ => {},
                }
            },
            _ => {
                lemma_unfold_metas_solved(f, tables, locals, meta_var, term);
            },
        }
    }
}

proof fn lemma_unfold_bound_solved(
    fuel: nat,
    tables: TablesV,
    locals: Seq<ArcValueV>,
    meta_var: Level,
    term: TermV,
)
    requires
        is_solved(tables.metas, meta_var),
    ensures
        is_free(meta_var, unfold_bound_metas(fuel, tables, locals, term)),
    decreases fuel, 1nat, 0nat,
{
    if locals.len() < max_len() {
        lemma_unfold_metas_solved(
            fuel,
            tables,
            locals.push(fresh_var(locals.len())),
            meta_var,
            term,
        );
    }
}

proof fn lemma_telescope_unfolded(
    fuel: nat,
    tables: TablesV,
    locals: Seq<ArcValueV>,
    meta_var: Level,
    terms: Seq<TermV>,
    from: int,
)
    requires
        is_solved(tables.metas, meta_var),
    ensures
        are_free(meta_var, unfold_telescope_metas(fuel, tables, locals, terms, from)),
    decreases fuel, 1nat, terms.len() - from,
{
    if !(from < 0 || from >= terms.len()) {
        lemma_unfold_metas_solved(fuel, tables, locals, meta_var, terms[from]);
        if locals.len() < max_len() {
            lemma_telescope_unfolded(fuel, tables, locals.push(fresh_var(locals.len())), meta_var, terms, from + 1);
            match (
                unfold_metas(fuel, tables, locals, terms[from]),
                unfold_telescope_metas(fuel, tables, locals.push(fresh_var(locals.len())), terms, from + 1),
            ) {
                (Ok(term), Ok(rest)) => {
                    let all = seq![term] + rest;
                    assert forall|i: int| 0 <= i < all.len() implies term_avoids(
                        meta_var,
                        #[trigger] all[i],
                    ) by {
                        if i > 0 {
                            assert(all[i] == rest[i - 1]);
                        }
                    }
                },
                _ => {},
            }
        }
    }
}

proof fn lemma_all_unfolded(
    fuel: nat,
    tables: TablesV,
    locals: Seq<ArcValueV>,
    meta_var: Level,
    terms: Seq<TermV>,
    from: int,
)
    requires
        is_solved(tables.metas, meta_var),
    ensures
        are_free(meta_var, unfold_all_metas(fuel, tables, locals, terms, from)),
    decreases fuel, 1nat, terms.len() - from,
{
    if !(from < 0 || from >= terms.len()) {
        lemma_unfold_metas_solved(fuel, tables, locals, meta_var, terms[from]);
        {
            lemma_all_unfolded(fuel, tables, locals, meta_var, terms, from + 1);
            match (
                unfold_metas(fuel, tables, locals, terms[from]),
                unfold_all_metas(fuel, tables, locals, terms, from + 1),
            ) {
                (Ok(term), Ok(rest)) => {
                    let all = seq![term] + rest;
                    assert forall|i: int| 0 <= i < all.len() implies term_avoids(
                        meta_var,
                        #[trigger] all[i],
                    ) by {
                        if i > 0 {
                            assert(all[i] == rest[i - 1]);
                        }
                    }
                },
                _ => {},
            }
        }
    }
}

proof fn lemma_branches_unfolded(
    fuel: nat,
    tables: TablesV,
    locals: Seq<ArcValueV>,
    meta_var: Level,
    branches: Seq<(Const, TermV)>,
    from: int,
)
    requires
        is_solved(tables.metas, meta_var),
    ensures
        unfold_branch_metas(fuel, tables, locals, branches, from) matches Ok(unfolded)
            ==> branches_avoid(meta_var, unfolded, None),
    decreases fuel, 1nat, branches.len() - from,
{
    if !(from < 0 || from >= branches.len()) {
        lemma_unfold_metas_solved(fuel, tables, locals, meta_var, branches[from].1);
        lemma_branches_unfolded(fuel, tables, locals, meta_var, branches, from + 1);
        match (
            unfold_metas(fuel, tables, locals, branches[from].1),
            unfold_branch_metas(fuel, tables, locals, branches, from + 1),
        ) {
            (Ok(term), Ok(rest)) => {
                let all = seq![(branches[from].0, term)] + rest;
                assert forall|i: int| 0 <= i < all.len() implies term_avoids(
                    meta_var,
                    (#[trigger] all[i]).1,
                ) by {
                    if i > 0 {
                        assert(all[i] == rest[i - 1]);
                    }
                }
            },
            _ => {},
        }
    }
}

} // verus!
