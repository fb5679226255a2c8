//! Quotation: reading values back into terms.

use crate::arena::Scope;
use crate::core_lang::elim::SplitBranches;
use crate::core_lang::model;
use crate::core_lang::model::{ArcValueV, Head, Stop};
use crate::core_lang::model::Error;
use crate::core_lang::semantics::{spine_view, values_view, ArcValue, Branches, Closure, Elim, ElimEnv, EvalEnv, Telescope, Value};
use crate::core_lang::{branches_view, terms_view, Const, Term, TermV};
use crate::env::EnvLen;
use crate::source::{Span, Spanned};
use crate::symbol::StringId;
use std::sync::Arc;
use vstd::prelude::*;

verus! {

/// Quotation environment.
///
/// This environment keeps track of the length of the local environment,
/// and the values of metavariable expressions, allowing for quotation.
pub struct QuoteEnv<'in_arena, 'env> {
    pub elim_env: ElimEnv<'in_arena, 'env>,
    pub local_exprs: EnvLen,
    pub unfold_metas: bool,
}

/// The model of the result of a computation that yields a term.
pub open spec fn term_result(result: Result<Term, Stop>) -> Result<TermV, Stop> {
    match result {
        Ok(term) => Ok(term@),
        Err(stop) => Err(stop),
    }
}

/// The model of the result of a computation that yields a reference to a
/// term.
pub open spec fn term_ref_result(result: Result<&Term, Stop>) -> Result<TermV, Stop> {
    match result {
        Ok(term) => Ok(term@),
        Err(stop) => Err(stop),
    }
}

/// The model of the result of a computation that yields terms.
pub open spec fn terms_result(result: Result<Vec<Term>, Stop>) -> Result<Seq<TermV>, Stop> {
    match result {
        Ok(terms) => Ok(terms_view(terms@)),
        Err(stop) => Err(stop),
    }
}

/// The model of the result of quoting branches.
pub open spec fn branches_result(
    result: Result<(Vec<(Const, Term)>, Option<&Term>), Stop>,
) -> Result<(Seq<(Const, TermV)>, Option<TermV>), Stop> {
    match result {
        Ok((branches, default_expr)) => Ok(
            (
                branches_view(branches@),
                match default_expr {
                    Some(expr) => Some(expr@),
                    None => None,
                },
            ),
        ),
        Err(stop) => Err(stop),
    }
}

/// What is done, followed by what the rest of a computation yields.
pub open spec fn prepend_terms(done: Seq<TermV>, rest: Result<Seq<TermV>, Stop>) -> Result<
    Seq<TermV>,
    Stop,
> {
    match rest {
        Ok(rest) => Ok(done + rest),
        Err(stop) => Err(stop),
    }
}

impl<'in_arena, 'env> QuoteEnv<'in_arena, 'env> {
    pub fn new(elim_env: ElimEnv<'in_arena, 'env>, local_exprs: EnvLen) -> (env: QuoteEnv<
        'in_arena,
        'env,
    >)
        ensures
            env == (QuoteEnv { elim_env, local_exprs, unfold_metas: false }),
    {
        QuoteEnv { elim_env, local_exprs, unfold_metas: false }
    }

    /// The environment that quotes the solutions of metavariables in place
    /// of the variables.
    pub fn unfolding_metas(self) -> (env: QuoteEnv<'in_arena, 'env>)
        ensures
            env == (QuoteEnv {
                elim_env: self.elim_env,
                local_exprs: self.local_exprs,
                unfold_metas: true,
            }),
    {
        QuoteEnv { elim_env: self.elim_env, local_exprs: self.local_exprs, unfold_metas: true }
    }

    /// What quoting a value in this environment yields.
    pub open spec fn spec_quote(&self, fuel: nat, value: ArcValueV) -> Result<TermV, Stop> {
        model::quote(fuel, self.elim_env@, self.local_exprs.0 as nat, self.unfold_metas, value)
    }

    /// Quote a value back into a term, in at most `fuel` nested steps.
    pub fn quote<'out_arena>(
        &mut self,
        scope: &'out_arena Scope<'out_arena>,
        value: &ArcValue<'in_arena>,
        fuel: usize,
    ) -> (result: Result<Term<'out_arena>, Stop>)
        ensures
            *final(self) == *old(self),
            term_result(result) == old(self).spec_quote(fuel as nat, value@),
        decreases fuel, 0nat, 0nat,
    {
        // NOTE: this copies more than is necessary when the two arenas are
        // the same: for example when copying label slices.
        if fuel == 0 {
            return Err(Stop::Limit);
        }
        match self.elim_env.force(value, fuel - 1) {
            Ok(value) => self.quote_forced(scope, &value, fuel - 1),
            Err(stop) => Err(stop),
        }
    }

    /// Quotes a value that has been forced.
    fn quote_forced<'out_arena>(
        &mut self,
        scope: &'out_arena Scope<'out_arena>,
        value: &ArcValue<'in_arena>,
        fuel: usize,
    ) -> (result: Result<Term<'out_arena>, Stop>)
        ensures
            *final(self) == *old(self),
            term_result(result) == model::quote_forced(
                fuel as nat,
                old(self).elim_env@,
                old(self).local_exprs.0 as nat,
                old(self).unfold_metas,
                value@,
            ),
        decreases fuel, 5nat, 0nat,
    {
        let span = value.span;
        match &*value.inner {
            Value::Stuck(head, spine) => match self.quote_head(scope, span, head, fuel) {
                Ok(head) => self.quote_spine(scope, span, head, spine, fuel),
                Err(stop) => Err(stop),
            },
            Value::Universe => Ok(Term::Universe(span)),
            Value::FunType(param_name, param_type, body_type) => match self.quote_bound(
                scope,
                param_type,
                body_type,
                fuel,
            ) {
                Ok((param, body)) => Ok(Term::FunType(span, *param_name, param, body)),
                Err(stop) => Err(stop),
            },
            Value::FunLit(param_name, body_expr) => match self.quote_closure(
                scope,
                body_expr,
                fuel,
            ) {
                Ok(body) => Ok(Term::FunLit(span, *param_name, body)),
                Err(stop) => Err(stop),
            },
            Value::RecordType(labels, types) => match self.quote_fields(
                scope,
                labels,
                types,
                fuel,
            ) {
                Ok((labels, types)) => Ok(Term::RecordType(span, labels, types)),
                Err(stop) => Err(stop),
            },
            Value::RecordLit(labels, exprs) => match self.quote_items(scope, exprs, fuel) {
                Ok(exprs) => Ok(Term::RecordLit(span, scope.to_scope_from_iter(labels), exprs)),
                Err(stop) => Err(stop),
            },
            Value::ArrayLit(exprs) => match self.quote_items(scope, exprs, fuel) {
                Ok(exprs) => Ok(Term::ArrayLit(span, exprs)),
                Err(stop) => Err(stop),
            },
            Value::FormatRecord(labels, formats) => match self.quote_fields(
                scope,
                labels,
                formats,
                fuel,
            ) {
                Ok((labels, formats)) => Ok(Term::FormatRecord(span, labels, formats)),
                Err(stop) => Err(stop),
            },
            Value::FormatCond(label, format, cond) => match self.quote_bound(
                scope,
                format,
                cond,
                fuel,
            ) {
                Ok((format, cond)) => Ok(Term::FormatCond(span, *label, format, cond)),
                Err(stop) => Err(stop),
            },
            Value::FormatOverlap(labels, formats) => match self.quote_fields(
                scope,
                labels,
                formats,
                fuel,
            ) {
                Ok((labels, formats)) => Ok(Term::FormatOverlap(span, labels, formats)),
                Err(stop) => Err(stop),
            },
            Value::ConstLit(constant) => Ok(Term::ConstLit(span, *constant)),
        }
    }

    /// Quotes the telescope of a record, and places it with its labels.
    fn quote_fields<'out_arena>(
        &mut self,
        scope: &'out_arena Scope<'out_arena>,
        labels: &[StringId],
        telescope: &Telescope<'in_arena>,
        fuel: usize,
    ) -> (result: Result<(&'out_arena [StringId], &'out_arena Vec<Term<'out_arena>>), Stop>)
        ensures
            *final(self) == *old(self),
            match model::quote_telescope(
                fuel as nat,
                old(self).elim_env@,
                old(self).local_exprs.0 as nat,
                old(self).unfold_metas,
                telescope@,
            ) {
                Ok(terms) => result matches Ok((placed, quoted)) && placed@ == labels@
                    && terms_view(quoted@) == terms,
                Err(stop) => result == Err::<(&[StringId], &Vec<Term>), _>(stop),
            },
        decreases fuel, 2nat, 0nat,
    {
        match self.quote_telescope(scope, telescope, fuel) {
            Ok(terms) => Ok((scope.to_scope_from_iter(labels), scope.to_scope(terms))),
            Err(stop) => Err(stop),
        }
    }

    /// Quotes values, and places the terms.
    fn quote_items<'out_arena>(
        &mut self,
        scope: &'out_arena Scope<'out_arena>,
        values: &Vec<ArcValue<'in_arena>>,
        fuel: usize,
    ) -> (result: Result<&'out_arena Vec<Term<'out_arena>>, Stop>)
        ensures
            *final(self) == *old(self),
            match model::quote_all(
                fuel as nat,
                old(self).elim_env@,
                old(self).local_exprs.0 as nat,
                old(self).unfold_metas,
                values_view(values@),
                0,
            ) {
                Ok(terms) => result matches Ok(quoted) && terms_view(quoted@) == terms,
                Err(stop) => result == Err::<&Vec<Term>, _>(stop),
            },
        decreases fuel, 2nat, 0nat,
    {
        match self.quote_all(scope, values, fuel) {
            Ok(terms) => Ok(scope.to_scope(terms)),
            Err(stop) => Err(stop),
        }
    }

    /// Quotes a value, and a closure that binds what the value is the type
    /// or the format of.
    fn quote_bound<'out_arena>(
        &mut self,
        scope: &'out_arena Scope<'out_arena>,
        value: &ArcValue<'in_arena>,
        closure: &Closure<'in_arena>,
        fuel: usize,
    ) -> (result: Result<(&'out_arena Term<'out_arena>, &'out_arena Term<'out_arena>), Stop>)
        ensures
            *final(self) == *old(self),
            match old(self).spec_quote(fuel as nat, value@) {
                Ok(first) => match model::quote_closure(
                    fuel as nat,
                    old(self).elim_env@,
                    old(self).local_exprs.0 as nat,
                    old(self).unfold_metas,
                    closure@,
                ) {
                    Ok(second) => result matches Ok((a, b)) && a@ == first && b@ == second,
                    Err(stop) => result == Err::<(&Term, &Term), _>(stop),
                },
                Err(stop) => result == Err::<(&Term, &Term), _>(stop),
            },
        decreases fuel, 2nat, 0nat,
    {
        let first = match self.quote(scope, value, fuel) {
            Ok(first) => first,
            Err(stop) => {
                return Err(stop);
            },
        };
        match self.quote_closure(scope, closure, fuel) {
            Ok(second) => Ok((scope.to_scope(first), second)),
            Err(stop) => Err(stop),
        }
    }

    /// Quote an elimination head back into a term.
    fn quote_head<'out_arena>(
        &mut self,
        scope: &'out_arena Scope<'out_arena>,
        span: Span,
        head: &Head,
        fuel: usize,
    ) -> (result: Result<Term<'out_arena>, Stop>)
        ensures
            *final(self) == *old(self),
            term_result(result) == model::quote_head(
                fuel as nat,
                old(self).elim_env@,
                old(self).local_exprs.0 as nat,
                old(self).unfold_metas,
                span,
                *head,
            ),
        decreases fuel, 1nat, 0nat,
    {
        match head {
            Head::Prim(prim) => Ok(Term::Prim(span, *prim)),
            Head::LocalVar(var) => match self.local_exprs.level_to_index(*var) {
                Some(var) => Ok(Term::LocalVar(span, var)),
                None => Err(Stop::Error(Error::UnboundLocalVar)),
            },
            Head::MetaVar(var) => {
                if self.unfold_metas {
                    match self.elim_env.meta_exprs.get_level(*var) {
                        Some(Some(value)) => self.quote(scope, value, fuel),
                        Some(None) => Ok(Term::MetaVar(span, *var)),
                        None => Err(Stop::Error(Error::UnboundMetaVar)),
                    }
                } else {
                    Ok(Term::MetaVar(span, *var))
                }
            },
        }
    }

    /// Quotes the eliminations of a spine around the term of its head.
    fn quote_spine<'out_arena>(
        &mut self,
        scope: &'out_arena Scope<'out_arena>,
        span: Span,
        head: Term<'out_arena>,
        spine: &Vec<Elim<'in_arena>>,
        fuel: usize,
    ) -> (result: Result<Term<'out_arena>, Stop>)
        ensures
            *final(self) == *old(self),
            term_result(result) == model::quote_spine(
                fuel as nat,
                old(self).elim_env@,
                old(self).local_exprs.0 as nat,
                old(self).unfold_metas,
                span,
                head@,
                spine_view(spine@),
                0,
            ),
        decreases fuel, 4nat, 0nat,
    {
        let mut head_expr = head;
        let mut i: usize = 0;
        while i < spine.len()
            invariant
                i <= spine.len(),
                *self == *old(self),
                model::quote_spine(
                    fuel as nat,
                    self.elim_env@,
                    self.local_exprs.0 as nat,
                    self.unfold_metas,
                    span,
                    head@,
                    spine_view(spine@),
                    0,
                ) == model::quote_spine(
                    fuel as nat,
                    self.elim_env@,
                    self.local_exprs.0 as nat,
                    self.unfold_metas,
                    span,
                    head_expr@,
                    spine_view(spine@),
                    i as int,
                ),
            decreases spine.len() - i,
        {
            let next = match self.quote_elim(scope, span, head_expr, &spine[i], fuel) {
                Ok(next) => next,
                Err(stop) => {
                    return Err(stop);
                },
            };
            head_expr = next;
            i = i + 1;
        }
        Ok(head_expr)
    }

    /// Quotes one elimination around the term of what it eliminates.
    fn quote_elim<'out_arena>(
        &mut self,
        scope: &'out_arena Scope<'out_arena>,
        span: Span,
        head_expr: Term<'out_arena>,
        elim: &Elim<'in_arena>,
        fuel: usize,
    ) -> (result: Result<Term<'out_arena>, Stop>)
        ensures
            *final(self) == *old(self),
            term_result(result) == (match elim@ {
                model::ElimV::FunApp(arg) => match old(self).spec_quote(fuel as nat, arg) {
                    Ok(arg) => Ok(TermV::FunApp(span, Box::new(head_expr@), Box::new(arg))),
                    Err(stop) => Err(stop),
                },
                model::ElimV::RecordProj(label) => Ok(
                    TermV::RecordProj(span, Box::new(head_expr@), label),
                ),
                model::ElimV::ConstMatch(branches) => match model::quote_branches(
                    fuel as nat,
                    old(self).elim_env@,
                    old(self).local_exprs.0 as nat,
                    old(self).unfold_metas,
                    branches,
                ) {
                    Ok((branches, default_expr)) => Ok(
                        TermV::ConstMatch(
                            span,
                            Box::new(head_expr@),
                            branches,
                            match default_expr {
                                Some(expr) => Some(Box::new(expr)),
                                None => None,
                            },
                        ),
                    ),
                    Err(stop) => Err(stop),
                },
            }),
        decreases fuel, 3nat, 0nat,
    {
        match elim {
            Elim::FunApp(arg_expr) => match self.quote(scope, arg_expr, fuel) {
                Ok(arg) => Ok(Term::FunApp(span, scope.to_scope(head_expr), scope.to_scope(arg))),
                Err(stop) => Err(stop),
            },
            Elim::RecordProj(label) => Ok(Term::RecordProj(span, scope.to_scope(head_expr), *label)),
            Elim::ConstMatch(branches) => match self.quote_branches(scope, branches, fuel) {
                Ok((pattern_branches, default_expr)) => Ok(
                    Term::ConstMatch(
                        span,
                        scope.to_scope(head_expr),
                        scope.to_scope(pattern_branches),
                        default_expr,
                    ),
                ),
                Err(stop) => Err(stop),
            },
        }
    }

    /// Quotes the branches of a match on a constant.
    fn quote_branches<'out_arena>(
        &mut self,
        scope: &'out_arena Scope<'out_arena>,
        branches: &Branches<'in_arena>,
        fuel: usize,
    ) -> (result: Result<
        (Vec<(Const, Term<'out_arena>)>, Option<&'out_arena Term<'out_arena>>),
        Stop,
    >)
        ensures
            *final(self) == *old(self),
            branches_result(result) == model::quote_branches(
                fuel as nat,
                old(self).elim_env@,
                old(self).local_exprs.0 as nat,
                old(self).unfold_metas,
                branches@,
            ),
        decreases fuel, 2nat, branches@.pattern_branches.len() + 1,
    {
        let mut pattern_branches: Vec<(Const, Term<'out_arena>)> = Vec::new();
        proof {
            lemma_empty_branches(pattern_branches@);
        }
        match self.quote_branches_into(scope, branches.clone(), &mut pattern_branches, fuel) {
            Ok(default_expr) => Ok((pattern_branches, default_expr)),
            Err(stop) => Err(stop),
        }
    }

    /// Quotes the branches of a match, adding the bodies of the branches
    /// to `quoted`. The default comes back.
    fn quote_branches_into<'out_arena>(
        &mut self,
        scope: &'out_arena Scope<'out_arena>,
        branches: Branches<'in_arena>,
        quoted: &mut Vec<(Const, Term<'out_arena>)>,
        fuel: usize,
    ) -> (result: Result<Option<&'out_arena Term<'out_arena>>, Stop>)
        ensures
            *final(self) == *old(self),
            match model::quote_branches(
                fuel as nat,
                old(self).elim_env@,
                old(self).local_exprs.0 as nat,
                old(self).unfold_metas,
                branches@,
            ) {
                Ok((rest, default_expr)) => result is Ok && branches_view(final(quoted)@)
                    == branches_view(old(quoted)@) + rest && default_view(result->Ok_0)
                    == default_expr,
                Err(stop) => result == Err::<Option<&Term>, _>(stop),
            },
        decreases fuel, 2nat, branches@.pattern_branches.len(),
    {
        match self.elim_env.split_branches(branches, fuel) {
            Ok(SplitBranches::Branch((constant, body_expr), next_branches)) => {
                let body = match self.quote(scope, &body_expr, fuel) {
                    Ok(body) => body,
                    Err(stop) => {
                        return Err(stop);
                    },
                };
                proof {
                    lemma_push_branch(quoted@, constant, body);
                    let rest = model::quote_branches(
                        fuel as nat,
                        self.elim_env@,
                        self.local_exprs.0 as nat,
                        self.unfold_metas,
                        next_branches@,
                    );
                    if rest is Ok {
                        lemma_prepend(branches_view(quoted@), (constant, body@), rest->Ok_0.0);
                    }
                }
                quoted.push((constant, body));
                self.quote_branches_into(scope, next_branches, quoted, fuel)
            },
            Ok(SplitBranches::Default(default_expr)) => {
                proof {
                    lemma_empty_branches(quoted@);
                }
                match self.quote_closure(scope, &default_expr, fuel) {
                    Ok(default_expr) => Ok(Some(default_expr)),
                    Err(stop) => Err(stop),
                }
            },
            Ok(SplitBranches::End) => {
                proof {
                    lemma_empty_branches(quoted@);
                }
                Ok(None)
            },
            Err(stop) => Err(stop),
        }
    }

    /// Quote a closure back into a term.
    fn quote_closure<'out_arena>(
        &mut self,
        scope: &'out_arena Scope<'out_arena>,
        closure: &Closure<'in_arena>,
        fuel: usize,
    ) -> (result: Result<&'out_arena Term<'out_arena>, Stop>)
        ensures
            *final(self) == *old(self),
            term_ref_result(result) == model::quote_closure(
                fuel as nat,
                old(self).elim_env@,
                old(self).local_exprs.0 as nat,
                old(self).unfold_metas,
                closure@,
            ),
        decreases fuel, 1nat, 0nat,
    {
        let var = Spanned::empty(Arc::new(Value::local_var(self.local_exprs.next_level())));
        let value = match self.elim_env.apply_closure(closure, var, fuel) {
            Ok(value) => value,
            Err(stop) => {
                return Err(stop);
            },
        };
        if self.local_exprs.is_full() {
            return Err(Stop::Limit);
        }
        self.local_exprs.push();
        let term = self.quote(scope, &value, fuel);
        self.local_exprs.pop();
        match term {
            Ok(term) => Ok(scope.to_scope(term)),
            Err(stop) => Err(stop),
        }
    }

    /// Quote a telescope back into a sequence of terms.
    fn quote_telescope<'out_arena>(
        &mut self,
        scope: &'out_arena Scope<'out_arena>,
        telescope: &Telescope<'in_arena>,
        fuel: usize,
    ) -> (result: Result<Vec<Term<'out_arena>>, Stop>)
        ensures
            *final(self) == *old(self),
            terms_result(result) == model::quote_telescope(
                fuel as nat,
                old(self).elim_env@,
                old(self).local_exprs.0 as nat,
                old(self).unfold_metas,
                telescope@,
            ),
        decreases fuel, 1nat, telescope@.terms.len() + 1,
    {
        let mut terms: Vec<Term<'out_arena>> = Vec::new();
        proof {
            lemma_empty_terms(terms@);
        }
        match self.quote_telescope_into(scope, telescope.clone(), &mut terms, fuel) {
            Ok(()) => Ok(terms),
            Err(stop) => Err(stop),
        }
    }

    /// Quotes a telescope, adding the terms to `quoted`.
    fn quote_telescope_into<'out_arena>(
        &mut self,
        scope: &'out_arena Scope<'out_arena>,
        telescope: Telescope<'in_arena>,
        quoted: &mut Vec<Term<'out_arena>>,
        fuel: usize,
    ) -> (result: Result<(), Stop>)
        ensures
            *final(self) == *old(self),
            match model::quote_telescope(
                fuel as nat,
                old(self).elim_env@,
                old(self).local_exprs.0 as nat,
                old(self).unfold_metas,
                telescope@,
            ) {
                Ok(rest) => result is Ok && terms_view(final(quoted)@) == terms_view(old(quoted)@)
                    + rest,
                Err(stop) => result == Err::<(), _>(stop),
            },
        decreases fuel, 1nat, telescope@.terms.len(),
    {
        match self.elim_env.split_telescope(telescope, fuel) {
            Ok(Some((value, next_telescope))) => {
                let term = match self.quote(scope, &value, fuel) {
                    Ok(term) => term,
                    Err(stop) => {
                        return Err(stop);
                    },
                };
                if self.local_exprs.is_full() {
                    return Err(Stop::Limit);
                }
                let var = Spanned::empty(Arc::new(Value::local_var(self.local_exprs.next_level())));
                let telescope = next_telescope.resume(var);
                proof {
                    lemma_push_term(quoted@, term);
                    let rest = model::quote_telescope(
                        fuel as nat,
                        self.elim_env@,
                        (self.local_exprs.0 + 1) as nat,
                        self.unfold_metas,
                        telescope@,
                    );
                    if rest is Ok {
                        lemma_prepend(terms_view(quoted@), term@, rest->Ok_0);
                    }
                }
                quoted.push(term);
                self.local_exprs.push();
                let result = self.quote_telescope_into(scope, telescope, quoted, fuel);
                self.local_exprs.pop();
                result
            },
            Ok(None) => {
                proof {
                    lemma_empty_terms(quoted@);
                }
                Ok(())
            },
            Err(stop) => Err(stop),
        }
    }

    /// Quotes values in order, up to the first that fails.
    fn quote_all<'out_arena>(
        &mut self,
        scope: &'out_arena Scope<'out_arena>,
        values: &Vec<ArcValue<'in_arena>>,
        fuel: usize,
    ) -> (result: Result<Vec<Term<'out_arena>>, Stop>)
        ensures
            *final(self) == *old(self),
            terms_result(result) == model::quote_all(
                fuel as nat,
                old(self).elim_env@,
                old(self).local_exprs.0 as nat,
                old(self).unfold_metas,
                values_view(values@),
                0,
            ),
        decreases fuel, 1nat, 0nat,
    {
        let mut terms: Vec<Term<'out_arena>> = Vec::new();
        let mut i: usize = 0;
        proof {
            lemma_empty_terms(terms@);
        }
        while i < values.len()
            invariant
                i <= values.len(),
                *self == *old(self),
                model::quote_all(
                    fuel as nat,
                    self.elim_env@,
                    self.local_exprs.0 as nat,
                    self.unfold_metas,
                    values_view(values@),
                    0,
                ) == prepend_terms(
                    terms_view(terms@),
                    model::quote_all(
                        fuel as nat,
                        self.elim_env@,
                        self.local_exprs.0 as nat,
                        self.unfold_metas,
                        values_view(values@),
                        i as int,
                    ),
                ),
            decreases values.len() - i,
        {
            let term = match self.quote(scope, &values[i], fuel) {
                Ok(term) => term,
                Err(stop) => {
                    return Err(stop);
                },
            };
            proof {
                lemma_push_term(terms@, term);
                let rest = model::quote_all(
                    fuel as nat,
                    self.elim_env@,
                    self.local_exprs.0 as nat,
                    self.unfold_metas,
                    values_view(values@),
                    i + 1,
                );
                if rest is Ok {
                    lemma_prepend(terms_view(terms@), term@, rest->Ok_0);
                }
            }
            terms.push(term);
            i = i + 1;
        }
        proof {
            lemma_empty_terms(terms@);
        }
        Ok(terms)
    }
}

/// The model of a default that may be there.
pub open spec fn default_view(default_expr: Option<&Term>) -> Option<TermV> {
    match default_expr {
        Some(expr) => Some(expr@),
        None => None,
    }
}

/// Nothing added to a sequence leaves the sequence.
pub proof fn lemma_empty<T>(done: Seq<T>)
    ensures
        done + Seq::<T>::empty() == done,
{
    assert(done + Seq::<T>::empty() =~= done);
}

/// An item and more, added to a sequence, is more added to the sequence
/// with the item.
pub proof fn lemma_prepend<T>(done: Seq<T>, item: T, rest: Seq<T>)
    ensures
        done + (seq![item] + rest) == done.push(item) + rest,
{
    assert(done + (seq![item] + rest) =~= done.push(item) + rest);
}

proof fn lemma_empty_terms(terms: Seq<Term>)
    ensures
        terms_view(terms) + Seq::<TermV>::empty() == terms_view(terms),
{
    lemma_empty(terms_view(terms));
}

proof fn lemma_push_term(terms: Seq<Term>, term: Term)
    ensures
        terms_view(terms.push(term)) == terms_view(terms).push(term@),
{
    assert(terms_view(terms.push(term)) =~= terms_view(terms).push(term@));
}

proof fn lemma_empty_branches(branches: Seq<(Const, Term)>)
    ensures
        branches_view(branches) + Seq::<(Const, TermV)>::empty() == branches_view(branches),
{
    lemma_empty(branches_view(branches));
}

proof fn lemma_push_branch(branches: Seq<(Const, Term)>, constant: Const, body: Term)
    ensures
        branches_view(branches.push((constant, body))) == branches_view(branches).push(
            (constant, body@),
        ),
{
    assert(branches_view(branches.push((constant, body))) =~= branches_view(branches).push(
        (constant, body@),
    ));
}

impl<'arena, 'env> EvalEnv<'arena, 'env> {
    /// The environment that quotes values of this environment.
    fn quote_env(&self) -> (env: QuoteEnv<'arena, 'env>)
        ensures
            env.elim_env == self.elim_env,
            env.local_exprs.0 == self.locals().len(),
            env.unfold_metas == false,
    {
        QuoteEnv::new(self.elim_env, self.local_exprs.len())
    }

    /// Fully normalise a term by first evaluating it into a value, then
    /// quoting it back into a term.
    pub fn normalise<'out_arena>(
        &mut self,
        scope: &'out_arena Scope<'out_arena>,
        term: &Term<'arena>,
        fuel: usize,
    ) -> (result: Result<Term<'out_arena>, Stop>)
        ensures
            final(self).elim_env == old(self).elim_env,
            final(self).local_exprs@ == old(self).local_exprs@,
            term_result(result) == model::normalise(
                fuel as nat,
                old(self).elim_env@,
                old(self).locals(),
                term@,
            ),
    {
        match self.eval(term, fuel) {
            Ok(value) => self.quote_env().quote(scope, &value, fuel),
            Err(stop) => Err(stop),
        }
    }
}

} // verus!
