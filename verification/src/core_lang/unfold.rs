//! Unfolding the solutions of metavariables in terms.

use crate::arena::Scope;
use crate::core_lang::model;
use crate::core_lang::model::{ArcValueV, Error, Stop, TermOrValueV};
use crate::core_lang::quote::{
    lemma_empty, lemma_prepend, term_ref_result, term_result, QuoteEnv,
};
use crate::core_lang::semantics::{clone_value, lemma_env_view, ArcValue, Branches, EvalEnv, Value};
use crate::core_lang::{branches_view, terms_view, Const, Term, TermV};
use crate::env::Level;
use crate::source::{Span, Spanned};
use crate::symbol::StringId;
use std::sync::Arc;
use vstd::pervasive::unreached;
use vstd::prelude::*;

verus! {

/// A term whose metavariables have been unfolded, or the value that a spine
/// with a solved metavariable at its head has reduced to.
pub enum TermOrValue<'in_arena, 'out_arena> {
    Value(ArcValue<'in_arena>),
    Term(Term<'out_arena>),
}

impl<'in_arena, 'out_arena> View for TermOrValue<'in_arena, 'out_arena> {
    type V = TermOrValueV;

    open spec fn view(&self) -> TermOrValueV {
        match self {
            TermOrValue::Value(value) => TermOrValueV::Value(value@),
            TermOrValue::Term(term) => TermOrValueV::Term(term@),
        }
    }
}

/// The model of the result of unfolding a spine.
pub open spec fn spine_result(result: Result<TermOrValue, Stop>) -> Result<TermOrValueV, Stop> {
    match result {
        Ok(unfolded) => Ok(unfolded@),
        Err(stop) => Err(stop),
    }
}

proof fn lemma_push_term(terms: Seq<Term>, term: Term)
    ensures
        terms_view(terms.push(term)) == terms_view(terms).push(term@),
{
    assert(terms_view(terms.push(term)) =~= terms_view(terms).push(term@));
}

proof fn lemma_push_branch(branches: Seq<(Const, Term)>, constant: Const, body: Term)
    ensures
        branches_view(branches.push((constant, body))) == branches_view(branches).push(
            (constant, body@),
        ),
{
    assert(branches_view(branches.push((constant, body))) =~= branches_view(branches).push(
        (constant, body@),
    ));
}

impl<'arena, 'env> EvalEnv<'arena, 'env> {
    /// Whether another state of the environment has the same tables and the
    /// same local values.
    pub open spec fn unchanged(&self, other: &EvalEnv<'arena, 'env>) -> bool {
        self.elim_env == other.elim_env && self.local_exprs@ == other.local_exprs@
    }

    /// What unfolding the metavariables of a term in this environment
    /// yields.
    pub open spec fn spec_unfold_metas(&self, fuel: nat, term: TermV) -> Result<TermV, Stop> {
        model::unfold_metas(fuel, self.elim_env@, self.locals(), term)
    }

    /// What unfolding the metavariables of a term under a binder yields.
    pub open spec fn spec_unfold_bound_metas(&self, fuel: nat, term: TermV) -> Result<TermV, Stop> {
        model::unfold_bound_metas(fuel, self.elim_env@, self.locals(), term)
    }

    /// The solution of a metavariable.
    fn meta_solution(&self, var: Level) -> (result: Result<Option<ArcValue<'arena>>, Stop>)
        ensures
            match result {
                Ok(Some(value)) => model::meta_solution(self.elim_env@, var) == Ok::<_, Stop>(
                    Some(value@),
                ),
                Ok(None) => model::meta_solution(self.elim_env@, var) == Ok::<_, Stop>(
                    None::<ArcValueV>,
                ),
                Err(stop) => model::meta_solution(self.elim_env@, var) == Err::<
                    Option<ArcValueV>,
                    _,
                >(stop),
            },
    {
        match self.elim_env.meta_exprs.get_level(var) {
            Some(Some(value)) => Ok(Some(clone_value(value))),
            Some(None) => Ok(None),
            None => Err(Stop::Error(Error::UnboundMetaVar)),
        }
    }

    /// Quotes a value in the local environment.
    fn quote_in<'out_arena>(
        &mut self,
        scope: &'out_arena Scope<'out_arena>,
        value: Result<ArcValue<'arena>, Stop>,
        fuel: usize,
    ) -> (result: Result<Term<'out_arena>, Stop>)
        ensures
            final(self).unchanged(old(self)),
            term_result(result) == model::quote_in(
                fuel as nat,
                old(self).elim_env@,
                old(self).locals(),
                match value {
                    Ok(value) => Ok(value@),
                    Err(stop) => Err(stop),
                },
            ),
    {
        match value {
            Ok(value) => {
                let mut env = QuoteEnv::new(self.elim_env, self.local_exprs.len());
                env.quote(scope, &value, fuel)
            },
            Err(stop) => Err(stop),
        }
    }

    /// Unfold all solved metavariable solutions and meta-headed
    /// eliminations, in at most `fuel` nested steps.
    ///
    /// If all the metas have been solved, this will result in a term that
    /// no longer depends on the environment of metavariable solutions.
    ///
    /// This is sometimes known as _zonking_.
    pub fn unfold_metas<'out_arena>(
        &mut self,
        scope: &'out_arena Scope<'out_arena>,
        term: &Term<'arena>,
        fuel: usize,
    ) -> (result: Result<Term<'out_arena>, Stop>)
        ensures
            final(self).unchanged(old(self)),
            term_result(result) == old(self).spec_unfold_metas(fuel as nat, term@),
        decreases fuel, 0nat, 0nat,
    {
        if fuel == 0 {
            return Err(Stop::Limit);
        }
        let f = fuel - 1;
        match term {
            Term::ItemVar(span, var) => Ok(Term::ItemVar(*span, *var)),
            Term::LocalVar(span, var) => Ok(Term::LocalVar(*span, *var)),
            // These might be meta-headed eliminations
            Term::MetaVar(_, _)
            | Term::FunApp(_, _, _)
            | Term::RecordProj(_, _, _)
            | Term::ConstMatch(_, _, _, _) => self.unfold_spine(scope, term, f),
            Term::InsertedMeta(span, var, infos) => match self.meta_solution(*var) {
                Ok(Some(value)) => {
                    let value = self.apply_local_infos(value, infos, f);
                    self.quote_in(scope, value, f)
                },
                Ok(None) => Ok(Term::InsertedMeta(*span, *var, scope.to_scope_from_iter(infos))),
                Err(stop) => Err(stop),
            },
            Term::Ann(_, _, _)
            | Term::Let(_, _, _, _, _)
            | Term::FunType(_, _, _, _)
            | Term::FunLit(_, _, _)
            | Term::FormatCond(_, _, _, _) => self.unfold_binding(scope, term, f),
            Term::Universe(span) => Ok(Term::Universe(*span)),
            Term::RecordType(_, _, _)
            | Term::RecordLit(_, _, _)
            | Term::ArrayLit(_, _)
            | Term::FormatRecord(_, _, _)
            | Term::FormatOverlap(_, _, _) => self.unfold_sequence(scope, term, f),
            Term::Prim(span, prim) => Ok(Term::Prim(*span, *prim)),
            Term::ConstLit(span, constant) => Ok(Term::ConstLit(*span, *constant)),
        }
    }

    /// Unfolds the metavariables of an annotation, a definition, a function
    /// type, a function literal or a conditional format.
    fn unfold_binding<'out_arena>(
        &mut self,
        scope: &'out_arena Scope<'out_arena>,
        term: &Term<'arena>,
        fuel: usize,
    ) -> (result: Result<Term<'out_arena>, Stop>)
        requires
            term@ is Ann || term@ is Let || term@ is FunType || term@ is FunLit
                || term@ is FormatCond,
        ensures
            final(self).unchanged(old(self)),
            term_result(result) == old(self).spec_unfold_metas((fuel + 1) as nat, term@),
        decreases fuel, 3nat, 0nat,
    {
        match term {
            Term::Ann(span, expr, ty) => match self.unfold_placed(scope, expr, fuel) {
                Ok(expr) => match self.unfold_placed(scope, ty, fuel) {
                    Ok(ty) => Ok(Term::Ann(*span, expr, ty)),
                    Err(stop) => Err(stop),
                },
                Err(stop) => Err(stop),
            },
            Term::Let(span, def_name, def_type, def_expr, body_expr) => match self.unfold_placed(
                scope,
                def_type,
                fuel,
            ) {
                Ok(def_type) => match self.unfold_binder(scope, def_expr, body_expr, fuel) {
                    Ok((def_expr, body_expr)) => Ok(
                        Term::Let(*span, *def_name, def_type, def_expr, body_expr),
                    ),
                    Err(stop) => Err(stop),
                },
                Err(stop) => Err(stop),
            },
            Term::FunType(span, param_name, param_type, body_type) => match self.unfold_binder(
                scope,
                param_type,
                body_type,
                fuel,
            ) {
                Ok((param_type, body_type)) => Ok(
                    Term::FunType(*span, *param_name, param_type, body_type),
                ),
                Err(stop) => Err(stop),
            },
            Term::FunLit(span, param_name, body_expr) => match self.unfold_bound_metas(
                scope,
                body_expr,
                fuel,
            ) {
                Ok(body_expr) => Ok(Term::FunLit(*span, *param_name, body_expr)),
                Err(stop) => Err(stop),
            },
            Term::FormatCond(span, name, format, pred) => match self.unfold_binder(
                scope,
                format,
                pred,
                fuel,
            ) {
                Ok((format, pred)) => Ok(Term::FormatCond(*span, *name, format, pred)),
                Err(stop) => Err(stop),
            },
            _ => unreached(),
        }
    }

    /// Unfolds the metavariables of a record, an array or a record format.
    fn unfold_sequence<'out_arena>(
        &mut self,
        scope: &'out_arena Scope<'out_arena>,
        term: &Term<'arena>,
        fuel: usize,
    ) -> (result: Result<Term<'out_arena>, Stop>)
        requires
            term@ is RecordType || term@ is RecordLit || term@ is ArrayLit
                || term@ is FormatRecord || term@ is FormatOverlap,
        ensures
            final(self).unchanged(old(self)),
            term_result(result) == old(self).spec_unfold_metas((fuel + 1) as nat, term@),
        decreases fuel, 3nat, 0nat,
    {
        match term {
            Term::RecordType(span, labels, types) => match self.unfold_fields(
                scope,
                labels,
                types,
                fuel,
            ) {
                Ok((labels, types)) => Ok(Term::RecordType(*span, labels, types)),
                Err(stop) => Err(stop),
            },
            Term::RecordLit(span, labels, exprs) => match self.unfold_items(scope, exprs, fuel) {
                Ok(exprs) => Ok(Term::RecordLit(*span, scope.to_scope_from_iter(labels), exprs)),
                Err(stop) => Err(stop),
            },
            Term::ArrayLit(span, exprs) => match self.unfold_items(scope, exprs, fuel) {
                Ok(exprs) => Ok(Term::ArrayLit(*span, exprs)),
                Err(stop) => Err(stop),
            },
            Term::FormatRecord(span, labels, formats) => match self.unfold_fields(
                scope,
                labels,
                formats,
                fuel,
            ) {
                Ok((labels, formats)) => Ok(Term::FormatRecord(*span, labels, formats)),
                Err(stop) => Err(stop),
            },
            Term::FormatOverlap(span, labels, formats) => match self.unfold_fields(
                scope,
                labels,
                formats,
                fuel,
            ) {
                Ok((labels, formats)) => Ok(Term::FormatOverlap(*span, labels, formats)),
                Err(stop) => Err(stop),
            },
            _ => unreached(),
        }
    }

    /// Unfolds a spine, and quotes the value where it has reduced to one.
    fn unfold_spine<'out_arena>(
        &mut self,
        scope: &'out_arena Scope<'out_arena>,
        term: &Term<'arena>,
        fuel: usize,
    ) -> (result: Result<Term<'out_arena>, Stop>)
        ensures
            final(self).unchanged(old(self)),
            term_result(result) == (match model::unfold_spine_metas(
                fuel as nat,
                old(self).elim_env@,
                old(self).locals(),
                term@,
            ) {
                Ok(TermOrValueV::Term(term)) => Ok(term),
                Ok(TermOrValueV::Value(value)) => model::quote(
                    fuel as nat,
                    old(self).elim_env@,
                    old(self).locals().len(),
                    false,
                    value,
                ),
                Err(stop) => Err(stop),
            }),
        decreases fuel, 1nat, 0nat,
    {
        match self.unfold_spine_metas(scope, term, fuel) {
            Ok(TermOrValue::Term(term)) => Ok(term),
            Ok(TermOrValue::Value(value)) => self.quote_in(scope, Ok(value), fuel),
            Err(stop) => Err(stop),
        }
    }

    /// Unfolds the metavariables of a term, and places the result.
    fn unfold_placed<'out_arena>(
        &mut self,
        scope: &'out_arena Scope<'out_arena>,
        term: &Term<'arena>,
        fuel: usize,
    ) -> (result: Result<&'out_arena Term<'out_arena>, Stop>)
        ensures
            final(self).unchanged(old(self)),
            term_ref_result(result) == old(self).spec_unfold_metas(fuel as nat, term@),
        decreases fuel, 1nat, 0nat,
    {
        match self.unfold_metas(scope, term, fuel) {
            Ok(term) => Ok(scope.to_scope(term)),
            Err(stop) => Err(stop),
        }
    }

    /// Unfolds the metavariables of a term, and of a term that it binds
    /// a variable in.
    fn unfold_binder<'out_arena>(
        &mut self,
        scope: &'out_arena Scope<'out_arena>,
        term: &Term<'arena>,
        bound: &Term<'arena>,
        fuel: usize,
    ) -> (result: Result<(&'out_arena Term<'out_arena>, &'out_arena Term<'out_arena>), Stop>)
        ensures
            final(self).unchanged(old(self)),
            match old(self).spec_unfold_metas(fuel as nat, term@) {
                Ok(first) => match old(self).spec_unfold_bound_metas(fuel as nat, bound@) {
                    Ok(second) => result matches Ok((a, b)) && a@ == first && b@ == second,
                    Err(stop) => result == Err::<(&Term, &Term), _>(stop),
                },
                Err(stop) => result == Err::<(&Term, &Term), _>(stop),
            },
        decreases fuel, 2nat, 0nat,
    {
        match self.unfold_placed(scope, term, fuel) {
            Ok(first) => match self.unfold_bound_metas(scope, bound, fuel) {
                Ok(second) => Ok((first, second)),
                Err(stop) => Err(stop),
            },
            Err(stop) => Err(stop),
        }
    }

    /// Unfolds the metavariables of the terms of a telescope, and places
    /// them with their labels.
    fn unfold_fields<'out_arena>(
        &mut self,
        scope: &'out_arena Scope<'out_arena>,
        labels: &[StringId],
        terms: &Vec<Term<'arena>>,
        fuel: usize,
    ) -> (result: Result<(&'out_arena [StringId], &'out_arena Vec<Term<'out_arena>>), Stop>)
        ensures
            final(self).unchanged(old(self)),
            match model::unfold_telescope_metas(
                fuel as nat,
                old(self).elim_env@,
                old(self).locals(),
                terms_view(terms@),
                0,
            ) {
                Ok(unfolded) => result matches Ok((placed, quoted)) && placed@ == labels@
                    && terms_view(quoted@) == unfolded,
                Err(stop) => result == Err::<(&[StringId], &Vec<Term>), _>(stop),
            },
        decreases fuel, 2nat, 0nat,
    {
        match self.unfold_telescope_metas(scope, terms, fuel) {
            Ok(terms) => Ok((scope.to_scope_from_iter(labels), scope.to_scope(terms))),
            Err(stop) => Err(stop),
        }
    }

    /// Unfolds the metavariables of terms, and places the results.
    fn unfold_items<'out_arena>(
        &mut self,
        scope: &'out_arena Scope<'out_arena>,
        terms: &Vec<Term<'arena>>,
        fuel: usize,
    ) -> (result: Result<&'out_arena Vec<Term<'out_arena>>, Stop>)
        ensures
            final(self).unchanged(old(self)),
            match model::unfold_all_metas(
                fuel as nat,
                old(self).elim_env@,
                old(self).locals(),
                terms_view(terms@),
                0,
            ) {
                Ok(unfolded) => result matches Ok(quoted) && terms_view(quoted@) == unfolded,
                Err(stop) => result == Err::<&Vec<Term>, _>(stop),
            },
        decreases fuel, 2nat, 0nat,
    {
        let ghost tables = self.elim_env@;
        let ghost locals = self.locals();
        let ghost models = terms_view(terms@);
        let mut unfolded: Vec<Term<'out_arena>> = Vec::new();
        let mut i: usize = 0;
        proof {
            lemma_empty(terms_view(unfolded@));
        }
        while i < terms.len()
            invariant
                i <= terms.len(),
                self.unchanged(old(self)),
                tables == self.elim_env@,
                locals == self.locals(),
                tables == old(self).elim_env@,
                locals == old(self).locals(),
                models == terms_view(terms@),
                model::unfold_all_metas(fuel as nat, tables, locals, models, 0)
                    == crate::core_lang::quote::prepend_terms(
                    terms_view(unfolded@),
                    model::unfold_all_metas(fuel as nat, tables, locals, models, i as int),
                ),
            decreases terms.len() - i,
        {
            let term = match self.unfold_metas(scope, &terms[i], fuel) {
                Ok(term) => term,
                Err(stop) => {
                    return Err(stop);
                },
            };
            proof {
                lemma_push_term(unfolded@, term);
                let rest = model::unfold_all_metas(fuel as nat, tables, locals, models, i + 1);
                if rest is Ok {
                    lemma_prepend(terms_view(unfolded@), term@, rest->Ok_0);
                }
            }
            unfolded.push(term);
            i = i + 1;
        }
        proof {
            lemma_empty(terms_view(unfolded@));
        }
        Ok(scope.to_scope(unfolded))
    }

    /// Unfolds the metavariables in the bodies of branches.
    fn unfold_branch_metas<'out_arena>(
        &mut self,
        scope: &'out_arena Scope<'out_arena>,
        branches: &Vec<(Const, Term<'arena>)>,
        fuel: usize,
    ) -> (result: Result<&'out_arena Vec<(Const, Term<'out_arena>)>, Stop>)
        ensures
            final(self).unchanged(old(self)),
            match model::unfold_branch_metas(
                fuel as nat,
                old(self).elim_env@,
                old(self).locals(),
                branches_view(branches@),
                0,
            ) {
                Ok(unfolded) => result matches Ok(quoted) && branches_view(quoted@) == unfolded,
                Err(stop) => result == Err::<&Vec<(Const, Term)>, _>(stop),
            },
        decreases fuel, 2nat, 0nat,
    {
        let ghost tables = self.elim_env@;
        let ghost locals = self.locals();
        let ghost models = branches_view(branches@);
        let mut unfolded: Vec<(Const, Term<'out_arena>)> = Vec::new();
        let mut i: usize = 0;
        proof {
            lemma_empty(branches_view(unfolded@));
        }
        while i < branches.len()
            invariant
                i <= branches.len(),
                self.unchanged(old(self)),
                tables == self.elim_env@,
                locals == self.locals(),
                tables == old(self).elim_env@,
                locals == old(self).locals(),
                models == branches_view(branches@),
                model::unfold_branch_metas(fuel as nat, tables, locals, models, 0)
                    == crate::core_lang::semantics::prepend(
                    branches_view(unfolded@),
                    model::unfold_branch_metas(fuel as nat, tables, locals, models, i as int),
                ),
            decreases branches.len() - i,
        {
            let term = match self.unfold_metas(scope, &branches[i].1, fuel) {
                Ok(term) => term,
                Err(stop) => {
                    return Err(stop);
                },
            };
            let constant = branches[i].0;
            proof {
                lemma_push_branch(unfolded@, constant, term);
                let rest = model::unfold_branch_metas(fuel as nat, tables, locals, models, i + 1);
                if rest is Ok {
                    lemma_prepend(branches_view(unfolded@), (constant, term@), rest->Ok_0);
                }
            }
            unfolded.push((constant, term));
            i = i + 1;
        }
        proof {
            lemma_empty(branches_view(unfolded@));
        }
        Ok(scope.to_scope(unfolded))
    }

    /// Unfold elimination spines with solved metavariables at their head.
    fn unfold_spine_metas<'out_arena>(
        &mut self,
        scope: &'out_arena Scope<'out_arena>,
        term: &Term<'arena>,
        fuel: usize,
    ) -> (result: Result<TermOrValue<'arena, 'out_arena>, Stop>)
        ensures
            final(self).unchanged(old(self)),
            spine_result(result) == model::unfold_spine_metas(
                fuel as nat,
                old(self).elim_env@,
                old(self).locals(),
                term@,
            ),
        decreases fuel, 0nat, 0nat,
    {
        if fuel == 0 {
            return Err(Stop::Limit);
        }
        let f = fuel - 1;
        match term {
            Term::MetaVar(span, var) => match self.meta_solution(*var) {
                Ok(Some(value)) => Ok(TermOrValue::Value(value)),
                Ok(None) => Ok(TermOrValue::Term(Term::MetaVar(*span, *var))),
                Err(stop) => Err(stop),
            },
            Term::InsertedMeta(span, var, infos) => match self.meta_solution(*var) {
                Ok(Some(value)) => match self.apply_local_infos(value, infos, f) {
                    Ok(value) => Ok(TermOrValue::Value(value)),
                    Err(stop) => Err(stop),
                },
                Ok(None) => Ok(
                    TermOrValue::Term(
                        Term::InsertedMeta(*span, *var, scope.to_scope_from_iter(infos)),
                    ),
                ),
                Err(stop) => Err(stop),
            },
            Term::FunApp(span, head_expr, arg_expr) => self.unfold_fun_app(
                scope,
                *span,
                head_expr,
                arg_expr,
                f,
            ),
            Term::RecordProj(span, head_expr, label) => match self.unfold_spine_metas(
                scope,
                head_expr,
                f,
            ) {
                Ok(TermOrValue::Term(head_expr)) => Ok(
                    TermOrValue::Term(Term::RecordProj(*span, scope.to_scope(head_expr), *label)),
                ),
                Ok(TermOrValue::Value(head_expr)) => match self.elim_env.record_proj(
                    head_expr,
                    *label,
                ) {
                    Ok(value) => Ok(TermOrValue::Value(value)),
                    Err(stop) => Err(stop),
                },
                Err(stop) => Err(stop),
            },
            Term::ConstMatch(span, head_expr, branches, default_expr) => self.unfold_const_match(
                scope,
                *span,
                head_expr,
                branches,
                *default_expr,
                f,
            ),
            term => match self.unfold_metas(scope, term, f) {
                Ok(term) => Ok(TermOrValue::Term(term)),
                Err(stop) => Err(stop),
            },
        }
    }

    /// Unfolds a function application.
    fn unfold_fun_app<'out_arena>(
        &mut self,
        scope: &'out_arena Scope<'out_arena>,
        span: Span,
        head_expr: &Term<'arena>,
        arg_expr: &Term<'arena>,
        fuel: usize,
    ) -> (result: Result<TermOrValue<'arena, 'out_arena>, Stop>)
        ensures
            final(self).unchanged(old(self)),
            spine_result(result) == model::unfold_spine_metas(
                (fuel + 1) as nat,
                old(self).elim_env@,
                old(self).locals(),
                TermV::FunApp(span, Box::new(head_expr@), Box::new(arg_expr@)),
            ),
        decreases fuel, 2nat, 0nat,
    {
        match self.unfold_spine_metas(scope, head_expr, fuel) {
            Ok(TermOrValue::Term(head_expr)) => match self.unfold_placed(scope, arg_expr, fuel) {
                Ok(arg_expr) => Ok(
                    TermOrValue::Term(Term::FunApp(span, scope.to_scope(head_expr), arg_expr)),
                ),
                Err(stop) => Err(stop),
            },
            Ok(TermOrValue::Value(head_expr)) => match self.eval(arg_expr, fuel) {
                Ok(arg_expr) => match self.elim_env.fun_app(head_expr, arg_expr, fuel) {
                    Ok(value) => Ok(TermOrValue::Value(value)),
                    Err(stop) => Err(stop),
                },
                Err(stop) => Err(stop),
            },
            Err(stop) => Err(stop),
        }
    }

    /// Unfolds a match on a constant.
    fn unfold_const_match<'out_arena>(
        &mut self,
        scope: &'out_arena Scope<'out_arena>,
        span: Span,
        head_expr: &Term<'arena>,
        branches: &'arena Vec<(Const, Term<'arena>)>,
        default_expr: Option<&'arena Term<'arena>>,
        fuel: usize,
    ) -> (result: Result<TermOrValue<'arena, 'out_arena>, Stop>)
        ensures
            final(self).unchanged(old(self)),
            spine_result(result) == model::unfold_spine_metas(
                (fuel + 1) as nat,
                old(self).elim_env@,
                old(self).locals(),
                TermV::ConstMatch(
                    span,
                    Box::new(head_expr@),
                    branches_view(branches@),
                    match default_expr {
                        Some(expr) => Some(Box::new(expr@)),
                        None => None,
                    },
                ),
            ),
        decreases fuel, 3nat, 0nat,
    {
        match self.unfold_spine_metas(scope, head_expr, fuel) {
            Ok(TermOrValue::Term(head_expr)) => {
                let branches = match self.unfold_branch_metas(scope, branches, fuel) {
                    Ok(branches) => branches,
                    Err(stop) => {
                        return Err(stop);
                    },
                };
                match default_expr {
                    Some(default_expr) => match self.unfold_bound_metas(
                        scope,
                        default_expr,
                        fuel,
                    ) {
                        Ok(default_expr) => Ok(
                            TermOrValue::Term(
                                Term::ConstMatch(
                                    span,
                                    scope.to_scope(head_expr),
                                    branches,
                                    Some(default_expr),
                                ),
                            ),
                        ),
                        Err(stop) => Err(stop),
                    },
                    None => Ok(
                        TermOrValue::Term(
                            Term::ConstMatch(span, scope.to_scope(head_expr), branches, None),
                        ),
                    ),
                }
            },
            Ok(TermOrValue::Value(head_expr)) => {
                let branches = Branches::new(
                    self.local_exprs.clone(),
                    branches.as_slice(),
                    default_expr,
                );
                proof {
                    lemma_env_view(&branches.local_exprs);
                }
                match self.elim_env.const_match(head_expr, branches, fuel) {
                    Ok(value) => Ok(TermOrValue::Value(value)),
                    Err(stop) => Err(stop),
                }
            },
            Err(stop) => Err(stop),
        }
    }

    /// Unfolds the metavariables of a term under a binder.
    fn unfold_bound_metas<'out_arena>(
        &mut self,
        scope: &'out_arena Scope<'out_arena>,
        term: &Term<'arena>,
        fuel: usize,
    ) -> (result: Result<&'out_arena Term<'out_arena>, Stop>)
        ensures
            final(self).unchanged(old(self)),
            term_ref_result(result) == old(self).spec_unfold_bound_metas(fuel as nat, term@),
        decreases fuel, 1nat, 0nat,
    {
        if self.local_exprs.is_full() {
            return Err(Stop::Limit);
        }
        let var = Spanned::empty(Arc::new(Value::local_var(self.local_exprs.len().next_level())));
        let ghost entries = self.local_exprs@;
        let ghost locals = self.locals();
        self.local_exprs.push(var);
        assert(self.locals() =~= locals.push(var@));
        let term = self.unfold_metas(scope, term, fuel);
        self.local_exprs.pop();
        assert(self.local_exprs@ =~= entries);
        match term {
            Ok(term) => Ok(scope.to_scope(term)),
            Err(stop) => Err(stop),
        }
    }

    /// Unfolds the metavariables of the terms of a telescope.
    fn unfold_telescope_metas<'out_arena>(
        &mut self,
        scope: &'out_arena Scope<'out_arena>,
        terms: &Vec<Term<'arena>>,
        fuel: usize,
    ) -> (result: Result<Vec<Term<'out_arena>>, Stop>)
        ensures
            final(self).unchanged(old(self)),
            crate::core_lang::quote::terms_result(result) == model::unfold_telescope_metas(
                fuel as nat,
                old(self).elim_env@,
                old(self).locals(),
                terms_view(terms@),
                0,
            ),
        decreases fuel, 1nat, terms@.len() + 1,
    {
        let mut unfolded: Vec<Term<'out_arena>> = Vec::new();
        proof {
            lemma_empty(terms_view(unfolded@));
        }
        match self.unfold_telescope_into(scope, terms, 0, &mut unfolded, fuel) {
            Ok(()) => Ok(unfolded),
            Err(stop) => Err(stop),
        }
    }

    /// Unfolds the metavariables of the terms of a telescope from position
    /// `from` on, adding the results to `unfolded`.
    fn unfold_telescope_into<'out_arena>(
        &mut self,
        scope: &'out_arena Scope<'out_arena>,
        terms: &Vec<Term<'arena>>,
        from: usize,
        unfolded: &mut Vec<Term<'out_arena>>,
        fuel: usize,
    ) -> (result: Result<(), Stop>)
        requires
            from <= terms@.len(),
        ensures
            final(self).unchanged(old(self)),
            match model::unfold_telescope_metas(
                fuel as nat,
                old(self).elim_env@,
                old(self).locals(),
                terms_view(terms@),
                from as int,
            ) {
                Ok(rest) => result is Ok && terms_view(final(unfolded)@) == terms_view(
                    old(unfolded)@,
                ) + rest,
                Err(stop) => result == Err::<(), _>(stop),
            },
        decreases fuel, 1nat, terms@.len() - from,
    {
        if from >= terms.len() {
            proof {
                lemma_empty(terms_view(unfolded@));
            }
            return Ok(());
        }
        let term = match self.unfold_metas(scope, &terms[from], fuel) {
            Ok(term) => term,
            Err(stop) => {
                return Err(stop);
            },
        };
        if self.local_exprs.is_full() {
            return Err(Stop::Limit);
        }
        let var = Spanned::empty(Arc::new(Value::local_var(self.local_exprs.len().next_level())));
        let ghost entries = self.local_exprs@;
        let ghost locals = self.locals();
        proof {
            lemma_push_term(unfolded@, term);
            let rest = model::unfold_telescope_metas(
                fuel as nat,
                self.elim_env@,
                locals.push(var@),
                terms_view(terms@),
                from + 1,
            );
            if rest is Ok {
                lemma_prepend(terms_view(unfolded@), term@, rest->Ok_0);
            }
        }
        unfolded.push(term);
        self.local_exprs.push(var);
        assert(self.locals() =~= locals.push(var@));
        let result = self.unfold_telescope_into(scope, terms, from + 1, unfolded, fuel);
        self.local_exprs.pop();
        assert(self.local_exprs@ =~= entries);
        result
    }
}

} // verus!
