//! Renaming: quoting a value into a term over the parameters of the
//! solution of a metavariable.

use crate::arena::Scope;
use crate::core_lang::elim::SplitBranches;
use crate::core_lang::model::{ArcValueV, Head, Stop};
use crate::core_lang::quote::{default_view, lemma_empty, lemma_prepend};
use crate::core_lang::semantics::{
    spine_view, values_view, ArcValue, Branches, Closure, Elim, ElimEnv, Telescope, Value,
};
use crate::core_lang::unify_model;
use crate::core_lang::unify_model::{Failure, RenamingV, UnifyError};
use crate::core_lang::{branches_view, terms_view, Const, Term, TermV};
use crate::env::{EnvLen, Index, Level};
use crate::source::{Span, Spanned};
use crate::symbol::StringId;
use std::sync::Arc;
use vstd::pervasive::unreached;
use vstd::prelude::*;

verus! {

/// A partial renaming from a source environment to a target environment:
/// from the local variables around a metavariable to the parameters of its
/// solution.
pub struct PartialRenaming {
    /// For each level of the source environment, the level of the target
    /// environment that it is renamed to, if any.
    source: Vec<Option<Level>>,
    /// The length of the target environment.
    target: EnvLen,
}

impl View for PartialRenaming {
    type V = RenamingV;

    closed spec fn view(&self) -> RenamingV {
        RenamingV { source: self.source@, target: self.target.0 as nat }
    }
}

impl PartialRenaming {
    #[verifier::type_invariant]
    spec fn addressable(&self) -> bool {
        self.source@.len() <= u16::MAX
    }

    /// A renaming from the empty environment to the empty environment.
    pub fn new() -> (renaming: PartialRenaming)
        ensures
            renaming@ == unify_model::empty_renaming(0),
    {
        let renaming = PartialRenaming { source: Vec::new(), target: EnvLen::new() };
        assert(renaming@.source =~= unify_model::empty_renaming(0).source);
        renaming
    }

    /// Makes the renaming the empty one from an environment of the given
    /// length.
    pub fn init(&mut self, source_len: EnvLen)
        ensures
            final(self)@ == unify_model::empty_renaming(source_len.0 as nat),
    {
        let mut source: Vec<Option<Level>> = Vec::new();
        let mut i: u16 = 0;
        while i < source_len.0
            invariant
                i <= source_len.0,
                source@.len() == i,
                forall|k: int| 0 <= k < i ==> source@[k] is None,
            decreases source_len.0 - i,
        {
            source.push(None);
            i = i + 1;
        }
        *self = PartialRenaming { source, target: EnvLen::new() };
        assert(self@.source =~= unify_model::empty_renaming(source_len.0 as nat).source);
    }

    /// The variable that the next source binding stands for.
    pub fn next_local_var<'arena>(&self) -> (var: ArcValue<'arena>)
        ensures
            var@ == crate::core_lang::model::fresh_var(self@.source.len()),
    {
        proof {
            use_type_invariant(self);
        }
        Spanned::empty(Arc::new(Value::local_var(Level(self.source.len() as u16))))
    }

    /// Whether one more variable can be bound on both sides.
    pub fn has_room(&self) -> (room: bool)
        ensures
            room == unify_model::has_room(self@),
    {
        proof {
            use_type_invariant(self);
        }
        self.source.len() < u16::MAX as usize && !self.target.is_full()
    }

    /// Maps a source variable to the next target variable. Nothing happens,
    /// and the answer is no, where the variable is mapped already, is not
    /// in the source environment, or the target environment is full.
    pub fn set_local(&mut self, source_var: Level) -> (set: bool)
        ensures
            set == (source_var.0 < old(self)@.source.len() && old(self)@.source[source_var.0 as int]
                is None && old(self)@.target < u16::MAX),
            set ==> final(self)@ == (RenamingV {
                source: old(self)@.source.update(
                    source_var.0 as int,
                    Some(Level(old(self)@.target as u16)),
                ),
                target: old(self)@.target + 1,
            }),
            !set ==> final(self)@ == old(self)@,
    {
        proof {
            use_type_invariant(&*self);
        }
        let index = source_var.0 as usize;
        if index >= self.source.len() || self.target.is_full() {
            return false;
        }
        match self.source[index] {
            Some(_) => false,
            None => {
                let target_var = self.target.next_level();
                let mut source = Vec::new();
                std::mem::swap(&mut source, &mut self.source);
                source.set(index, Some(target_var));
                let mut target = self.target;
                target.push();
                *self = PartialRenaming { source, target };
                true
            },
        }
    }

    /// Binds one more variable on both sides, the one mapped to the other.
    pub fn push_local(&mut self)
        requires
            unify_model::has_room(old(self)@),
        ensures
            final(self)@ == unify_model::push_local(old(self)@),
    {
        let target_var = self.target.next_level();
        let mut source = Vec::new();
        std::mem::swap(&mut source, &mut self.source);
        source.push(Some(target_var));
        let mut target = self.target;
        target.push();
        *self = PartialRenaming { source, target };
    }

    /// Drops the most recent binding on both sides, where there is one.
    pub fn pop_local(&mut self)
        ensures
            old(self)@.source.len() > 0 && old(self)@.target > 0 ==> final(self)@ == (RenamingV {
                source: old(self)@.source.drop_last(),
                target: (old(self)@.target - 1) as nat,
            }),
    {
        proof {
            use_type_invariant(&*self);
        }
        if self.source.len() == 0 || self.target.0 == 0 {
            return ;
        }
        let mut source = Vec::new();
        std::mem::swap(&mut source, &mut self.source);
        let _ = source.pop();
        let mut target = self.target;
        target.pop();
        *self = PartialRenaming { source, target };
    }

    /// Whether a variable is in the source environment.
    pub fn in_source(&self, source_var: Level) -> (inside: bool)
        ensures
            inside == (source_var.0 < self@.source.len()),
    {
        (source_var.0 as usize) < self.source.len()
    }

    /// The target level that a source variable is renamed to.
    pub fn get_as_level(&self, source_var: Level) -> (target_var: Option<Level>)
        ensures
            target_var == unify_model::renamed(self@, source_var),
    {
        let index = source_var.0 as usize;
        if index < self.source.len() {
            self.source[index]
        } else {
            None
        }
    }

    /// The index that addresses, in the target environment, what a source
    /// variable is renamed to.
    pub fn get_as_index(&self, source_var: Level) -> (target_var: Option<Index>)
        ensures
            target_var == (match unify_model::renamed(self@, source_var) {
                Some(target) => crate::core_lang::model::level_to_index(self@.target, target),
                None => None,
            }),
    {
        match self.get_as_level(source_var) {
            Some(target_var) => self.target.level_to_index(target_var),
            None => None,
        }
    }
}

/// Renaming environment.
///
/// This environment keeps track of the renaming that the solution of a
/// metavariable is built under, and of the values of the metavariables.
pub struct RenameEnv<'in_arena, 'env> {
    pub elim_env: ElimEnv<'in_arena, 'env>,
    /// The metavariable that is being solved, which may not occur in its
    /// solution.
    pub meta_var: Level,
    pub renaming: PartialRenaming,
}

/// The model of the result of a computation that yields a term.
pub open spec fn renamed_result(result: Result<Term, Failure>) -> Result<TermV, Failure> {
    match result {
        Ok(term) => Ok(term@),
        Err(failure) => Err(failure),
    }
}

/// The model of the result of a computation that yields a reference to a
/// term.
pub open spec fn renamed_ref_result(result: Result<&Term, Failure>) -> Result<TermV, Failure> {
    match result {
        Ok(term) => Ok(term@),
        Err(failure) => Err(failure),
    }
}

/// The model of the result of a computation that yields terms.
pub open spec fn renamed_terms_result(result: Result<Vec<Term>, Failure>) -> Result<
    Seq<TermV>,
    Failure,
> {
    match result {
        Ok(terms) => Ok(terms_view(terms@)),
        Err(failure) => Err(failure),
    }
}

/// The model of the result of renaming branches.
pub open spec fn renamed_branches_result(
    result: Result<(Vec<(Const, Term)>, Option<&Term>), Failure>,
) -> Result<(Seq<(Const, TermV)>, Option<TermV>), Failure> {
    match result {
        Ok((branches, default_expr)) => Ok((branches_view(branches@), default_view(default_expr))),
        Err(failure) => Err(failure),
    }
}

/// What is done, followed by what the rest of a computation yields.
pub open spec fn prepend_terms(done: Seq<TermV>, rest: Result<Seq<TermV>, Failure>) -> Result<
    Seq<TermV>,
    Failure,
> {
    match rest {
        Ok(rest) => Ok(done + rest),
        Err(failure) => Err(failure),
    }
}

proof fn lemma_empty_terms(terms: Seq<Term>)
    ensures
        terms_view(terms) + Seq::<TermV>::empty() == terms_view(terms),
{
    lemma_empty(terms_view(terms));
}

proof fn lemma_push_term(terms: Seq<Term>, term: Term)
    ensures
        terms_view(terms.push(term)) == terms_view(terms).push(term@),
{
    assert(terms_view(terms.push(term)) =~= terms_view(terms).push(term@));
}

proof fn lemma_empty_branches(branches: Seq<(Const, Term)>)
    ensures
        branches_view(branches) + Seq::<(Const, TermV)>::empty() == branches_view(branches),
{
    lemma_empty(branches_view(branches));
}

proof fn lemma_push_branch(branches: Seq<(Const, Term)>, constant: Const, body: Term)
    ensures
        branches_view(branches.push((constant, body))) == branches_view(branches).push(
            (constant, body@),
        ),
{
    assert(branches_view(branches.push((constant, body))) =~= branches_view(branches).push(
        (constant, body@),
    ));
}

impl<'in_arena, 'env> RenameEnv<'in_arena, 'env> {
    pub fn new(elim_env: ElimEnv<'in_arena, 'env>, meta_var: Level, renaming: PartialRenaming) -> (env:
        RenameEnv<'in_arena, 'env>)
        ensures
            env == (RenameEnv { elim_env, meta_var, renaming }),
    {
        RenameEnv { elim_env, meta_var, renaming }
    }

    /// Whether another state of the environment has the same tables, the
    /// same metavariable and the same renaming.
    pub open spec fn unchanged(&self, other: &RenameEnv<'in_arena, 'env>) -> bool {
        self.elim_env == other.elim_env && self.meta_var == other.meta_var && self.renaming@
            == other.renaming@
    }

    /// What renaming a value in this environment yields.
    pub open spec fn spec_rename(&self, fuel: nat, value: ArcValueV) -> Result<TermV, Failure> {
        unify_model::rename(fuel, self.elim_env@, self.meta_var, self.renaming@, value)
    }

    /// Renames a value into a term of the target environment, in at most
    /// `fuel` nested steps.
    pub fn rename<'out_arena>(
        &mut self,
        scope: &'out_arena Scope<'out_arena>,
        value: &ArcValue<'in_arena>,
        fuel: usize,
    ) -> (result: Result<Term<'out_arena>, Failure>)
        ensures
            final(self).unchanged(old(self)),
            renamed_result(result) == old(self).spec_rename(fuel as nat, value@),
        decreases fuel, 0nat, 0nat,
    {
        if fuel == 0 {
            return Err(Failure::Stop(Stop::Limit));
        }
        match self.elim_env.force(value, fuel - 1) {
            Ok(value) => self.rename_forced(scope, &value, fuel - 1),
            Err(stop) => Err(Failure::Stop(stop)),
        }
    }

    /// Renames a value that has been forced.
    fn rename_forced<'out_arena>(
        &mut self,
        scope: &'out_arena Scope<'out_arena>,
        value: &ArcValue<'in_arena>,
        fuel: usize,
    ) -> (result: Result<Term<'out_arena>, Failure>)
        ensures
            final(self).unchanged(old(self)),
            renamed_result(result) == unify_model::rename_forced(
                fuel as nat,
                old(self).elim_env@,
                old(self).meta_var,
                old(self).renaming@,
                value@,
            ),
        decreases fuel, 6nat, 0nat,
    {
        let span = value.span;
        match &*value.inner {
            Value::Stuck(head, spine) => match self.rename_head(span, head) {
                Ok(head) => self.rename_spine(scope, span, head, spine, fuel),
                Err(failure) => Err(failure),
            },
            Value::Universe => Ok(Term::Universe(span)),
            Value::FunType(_, _, _) | Value::FunLit(_, _) | Value::FormatCond(_, _, _) => {
                self.rename_binding(scope, value, fuel)
            },
            Value::RecordType(_, _)
            | Value::RecordLit(_, _)
            | Value::ArrayLit(_)
            | Value::FormatRecord(_, _)
            | Value::FormatOverlap(_, _) => self.rename_sequence(scope, value, fuel),
            Value::ConstLit(constant) => Ok(Term::ConstLit(span, *constant)),
        }
    }

    /// Renames a function type, a function literal or a conditional
    /// format.
    fn rename_binding<'out_arena>(
        &mut self,
        scope: &'out_arena Scope<'out_arena>,
        value: &ArcValue<'in_arena>,
        fuel: usize,
    ) -> (result: Result<Term<'out_arena>, Failure>)
        requires
            value@.value is FunType || value@.value is FunLit || value@.value is FormatCond,
        ensures
            final(self).unchanged(old(self)),
            renamed_result(result) == unify_model::rename_forced(
                fuel as nat,
                old(self).elim_env@,
                old(self).meta_var,
                old(self).renaming@,
                value@,
            ),
        decreases fuel, 5nat, 0nat,
    {
        let span = value.span;
        match &*value.inner {
            Value::FunType(param_name, param_type, body_type) => match self.rename_bound(
                scope,
                param_type,
                body_type,
                fuel,
            ) {
                Ok((param, body)) => Ok(Term::FunType(span, *param_name, param, body)),
                Err(failure) => Err(failure),
            },
            Value::FunLit(param_name, body_expr) => match self.rename_closure(
                scope,
                body_expr,
                fuel,
            ) {
                Ok(body) => Ok(Term::FunLit(span, *param_name, body)),
                Err(failure) => Err(failure),
            },
            Value::FormatCond(label, format, cond) => match self.rename_bound(
                scope,
                format,
                cond,
                fuel,
            ) {
                Ok((format, cond)) => Ok(Term::FormatCond(span, *label, format, cond)),
                Err(failure) => Err(failure),
            },
            _ => unreached(),
        }
    }

    /// Renames a record type, a record literal, an array literal or a
    /// record format.
    fn rename_sequence<'out_arena>(
        &mut self,
        scope: &'out_arena Scope<'out_arena>,
        value: &ArcValue<'in_arena>,
        fuel: usize,
    ) -> (result: Result<Term<'out_arena>, Failure>)
        requires
            value@.value is RecordType || value@.value is RecordLit || value@.value is ArrayLit
                || value@.value is FormatRecord || value@.value is FormatOverlap,
        ensures
            final(self).unchanged(old(self)),
            renamed_result(result) == unify_model::rename_forced(
                fuel as nat,
                old(self).elim_env@,
                old(self).meta_var,
                old(self).renaming@,
                value@,
            ),
        decreases fuel, 5nat, 0nat,
    {
        let span = value.span;
        match &*value.inner {
            Value::RecordType(labels, types) => match self.rename_fields(
                scope,
                labels,
                types,
                fuel,
            ) {
                Ok((labels, types)) => Ok(Term::RecordType(span, labels, types)),
                Err(failure) => Err(failure),
            },
            Value::RecordLit(labels, exprs) => match self.rename_items(scope, exprs, fuel) {
                Ok(exprs) => Ok(Term::RecordLit(span, scope.to_scope_from_iter(labels), exprs)),
                Err(failure) => Err(failure),
            },
            Value::ArrayLit(exprs) => match self.rename_items(scope, exprs, fuel) {
                Ok(exprs) => Ok(Term::ArrayLit(span, exprs)),
                Err(failure) => Err(failure),
            },
            Value::FormatRecord(labels, formats) => match self.rename_fields(
                scope,
                labels,
                formats,
                fuel,
            ) {
                Ok((labels, formats)) => Ok(Term::FormatRecord(span, labels, formats)),
                Err(failure) => Err(failure),
            },
            Value::FormatOverlap(labels, formats) => match self.rename_fields(
                scope,
                labels,
                formats,
                fuel,
            ) {
                Ok((labels, formats)) => Ok(Term::FormatOverlap(span, labels, formats)),
                Err(failure) => Err(failure),
            },
            _ => unreached(),
        }
    }

    /// Renames the telescope of a record, and places it with its labels.
    fn rename_fields<'out_arena>(
        &mut self,
        scope: &'out_arena Scope<'out_arena>,
        labels: &[StringId],
        telescope: &Telescope<'in_arena>,
        fuel: usize,
    ) -> (result: Result<(&'out_arena [StringId], &'out_arena Vec<Term<'out_arena>>), Failure>)
        ensures
            final(self).unchanged(old(self)),
            match unify_model::rename_telescope(
                fuel as nat,
                old(self).elim_env@,
                old(self).meta_var,
                old(self).renaming@,
                telescope@,
            ) {
                Ok(terms) => result matches Ok((placed, renamed)) && placed@ == labels@
                    && terms_view(renamed@) == terms,
                Err(stop) => result == Err::<(&[StringId], &Vec<Term>), _>(stop),
            },
        decreases fuel, 2nat, 0nat,
    {
        match self.rename_telescope(scope, telescope, fuel) {
            Ok(terms) => Ok((scope.to_scope_from_iter(labels), scope.to_scope(terms))),
            Err(stop) => Err(stop),
        }
    }

    /// Renames values, and places the terms.
    fn rename_items<'out_arena>(
        &mut self,
        scope: &'out_arena Scope<'out_arena>,
        values: &Vec<ArcValue<'in_arena>>,
        fuel: usize,
    ) -> (result: Result<&'out_arena Vec<Term<'out_arena>>, Failure>)
        ensures
            final(self).unchanged(old(self)),
            match unify_model::rename_all(
                fuel as nat,
                old(self).elim_env@,
                old(self).meta_var,
                old(self).renaming@,
                values_view(values@),
                0,
            ) {
                Ok(terms) => result matches Ok(renamed) && terms_view(renamed@) == terms,
                Err(stop) => result == Err::<&Vec<Term>, _>(stop),
            },
        decreases fuel, 2nat, 0nat,
    {
        match self.rename_all(scope, values, fuel) {
            Ok(terms) => Ok(scope.to_scope(terms)),
            Err(stop) => Err(stop),
        }
    }

    /// Renames a value, and a closure that binds what the value is the type
    /// or the format of.
    fn rename_bound<'out_arena>(
        &mut self,
        scope: &'out_arena Scope<'out_arena>,
        value: &ArcValue<'in_arena>,
        closure: &Closure<'in_arena>,
        fuel: usize,
    ) -> (result: Result<(&'out_arena Term<'out_arena>, &'out_arena Term<'out_arena>), Failure>)
        ensures
            final(self).unchanged(old(self)),
            match old(self).spec_rename(fuel as nat, value@) {
                Ok(first) => match unify_model::rename_closure(
                fuel as nat,
                old(self).elim_env@,
                old(self).meta_var,
                old(self).renaming@,
                    closure@,
                ) {
                    Ok(second) => result matches Ok((a, b)) && a@ == first && b@ == second,
                    Err(stop) => result == Err::<(&Term, &Term), _>(stop),
                },
                Err(stop) => result == Err::<(&Term, &Term), _>(stop),
            },
        decreases fuel, 2nat, 0nat,
    {
        let first = match self.rename(scope, value, fuel) {
            Ok(first) => first,
            Err(stop) => {
                return Err(stop);
            },
        };
        match self.rename_closure(scope, closure, fuel) {
            Ok(second) => Ok((scope.to_scope(first), second)),
            Err(stop) => Err(stop),
        }
    }

    /// Rename an elimination head back into a term.
    fn rename_head<'out_arena>(&self, span: Span, head: &Head) -> (result: Result<
        Term<'out_arena>,
        Failure,
    >)
        ensures
            renamed_result(result) == unify_model::rename_head(
                self.meta_var,
                self.renaming@,
                span,
                *head,
            ),
    {
        match head {
            Head::Prim(prim) => Ok(Term::Prim(span, *prim)),
            Head::LocalVar(source_var) => match self.renaming.get_as_index(*source_var) {
                Some(target_var) => Ok(Term::LocalVar(span, target_var)),
                None => Err(Failure::Unify(UnifyError::EscapingRigidVariable)),
            },
            Head::MetaVar(var) => {
                if *var == self.meta_var {
                    Err(Failure::Unify(UnifyError::InfiniteSolution))
                } else {
                    Ok(Term::MetaVar(span, *var))
                }
            },
        }
    }

    /// Renames the eliminations of a spine around the term of its head.
    fn rename_spine<'out_arena>(
        &mut self,
        scope: &'out_arena Scope<'out_arena>,
        span: Span,
        head: Term<'out_arena>,
        spine: &Vec<Elim<'in_arena>>,
        fuel: usize,
    ) -> (result: Result<Term<'out_arena>, Failure>)
        ensures
            final(self).unchanged(old(self)),
            renamed_result(result) == unify_model::rename_spine(
                fuel as nat,
                old(self).elim_env@,
                old(self).meta_var,
                old(self).renaming@,
                span,
                head@,
                spine_view(spine@),
                0,
            ),
        decreases fuel, 4nat, 0nat,
    {
        let mut head_expr = head;
        let mut i: usize = 0;
        while i < spine.len()
            invariant
                i <= spine.len(),
                self.unchanged(old(self)),
                unify_model::rename_spine(
                    fuel as nat,
                    self.elim_env@,
                    self.meta_var,
                    self.renaming@,
                    span,
                    head@,
                    spine_view(spine@),
                    0,
                ) == unify_model::rename_spine(
                    fuel as nat,
                    self.elim_env@,
                    self.meta_var,
                    self.renaming@,
                    span,
                    head_expr@,
                    spine_view(spine@),
                    i as int,
                ),
            decreases spine.len() - i,
        {
            let next = match self.rename_elim(scope, span, head_expr, &spine[i], fuel) {
                Ok(next) => next,
                Err(stop) => {
                    return Err(stop);
                },
            };
            head_expr = next;
            i = i + 1;
        }
        Ok(head_expr)
    }

    /// Renames one elimination around the term of what it eliminates.
    fn rename_elim<'out_arena>(
        &mut self,
        scope: &'out_arena Scope<'out_arena>,
        span: Span,
        head_expr: Term<'out_arena>,
        elim: &Elim<'in_arena>,
        fuel: usize,
    ) -> (result: Result<Term<'out_arena>, Failure>)
        ensures
            final(self).unchanged(old(self)),
            renamed_result(result) == unify_model::rename_elim(
                fuel as nat,
                old(self).elim_env@,
                old(self).meta_var,
                old(self).renaming@,
                span,
                head_expr@,
                elim@,
            ),
        decreases fuel, 3nat, 0nat,
    {
        match elim {
            Elim::FunApp(arg_expr) => match self.rename(scope, arg_expr, fuel) {
                Ok(arg) => Ok(Term::FunApp(span, scope.to_scope(head_expr), scope.to_scope(arg))),
                Err(stop) => Err(stop),
            },
            Elim::RecordProj(label) => Ok(Term::RecordProj(span, scope.to_scope(head_expr), *label)),
            Elim::ConstMatch(branches) => match self.rename_branches(scope, branches, fuel) {
                Ok((pattern_branches, default_expr)) => Ok(
                    Term::ConstMatch(
                        span,
                        scope.to_scope(head_expr),
                        scope.to_scope(pattern_branches),
                        default_expr,
                    ),
                ),
                Err(stop) => Err(stop),
            },
        }
    }

    /// Renames the branches of a match on a constant.
    fn rename_branches<'out_arena>(
        &mut self,
        scope: &'out_arena Scope<'out_arena>,
        branches: &Branches<'in_arena>,
        fuel: usize,
    ) -> (result: Result<
        (Vec<(Const, Term<'out_arena>)>, Option<&'out_arena Term<'out_arena>>),
        Failure,
    >)
        ensures
            final(self).unchanged(old(self)),
            renamed_branches_result(result) == unify_model::rename_branches(
                fuel as nat,
                old(self).elim_env@,
                old(self).meta_var,
                old(self).renaming@,
                branches@,
            ),
        decreases fuel, 2nat, branches@.pattern_branches.len() + 1,
    {
        let mut pattern_branches: Vec<(Const, Term<'out_arena>)> = Vec::new();
        proof {
            lemma_empty_branches(pattern_branches@);
        }
        match self.rename_branches_into(scope, branches.clone(), &mut pattern_branches, fuel) {
            Ok(default_expr) => Ok((pattern_branches, default_expr)),
            Err(stop) => Err(stop),
        }
    }

    /// Renames the branches of a match, adding the bodies of the branches
    /// to `renamed`. The default comes back.
    fn rename_branches_into<'out_arena>(
        &mut self,
        scope: &'out_arena Scope<'out_arena>,
        branches: Branches<'in_arena>,
        renamed: &mut Vec<(Const, Term<'out_arena>)>,
        fuel: usize,
    ) -> (result: Result<Option<&'out_arena Term<'out_arena>>, Failure>)
        ensures
            final(self).unchanged(old(self)),
            match unify_model::rename_branches(
                fuel as nat,
                old(self).elim_env@,
                old(self).meta_var,
                old(self).renaming@,
                branches@,
            ) {
                Ok((rest, default_expr)) => result is Ok && branches_view(final(renamed)@)
                    == branches_view(old(renamed)@) + rest && default_view(result->Ok_0)
                    == default_expr,
                Err(stop) => result == Err::<Option<&Term>, _>(stop),
            },
        decreases fuel, 2nat, branches@.pattern_branches.len(),
    {
        match self.elim_env.split_branches(branches, fuel) {
            Ok(SplitBranches::Branch((constant, body_expr), next_branches)) => {
                let body = match self.rename(scope, &body_expr, fuel) {
                    Ok(body) => body,
                    Err(stop) => {
                        return Err(stop);
                    },
                };
                proof {
                    lemma_push_branch(renamed@, constant, body);
                    let rest = unify_model::rename_branches(
                    fuel as nat,
                    self.elim_env@,
                    self.meta_var,
                    self.renaming@,
                        next_branches@,
                    );
                    if rest is Ok {
                        lemma_prepend(branches_view(renamed@), (constant, body@), rest->Ok_0.0);
                    }
                }
                renamed.push((constant, body));
                self.rename_branches_into(scope, next_branches, renamed, fuel)
            },
            Ok(SplitBranches::Default(default_expr)) => {
                proof {
                    lemma_empty_branches(renamed@);
                }
                match self.rename_closure(scope, &default_expr, fuel) {
                    Ok(default_expr) => Ok(Some(default_expr)),
                    Err(stop) => Err(stop),
                }
            },
            Ok(SplitBranches::End) => {
                proof {
                    lemma_empty_branches(renamed@);
                }
                Ok(None)
            },
            Err(stop) => Err(Failure::Stop(stop)),
        }
    }

    /// Renames a closure into a term.
    fn rename_closure<'out_arena>(
        &mut self,
        scope: &'out_arena Scope<'out_arena>,
        closure: &Closure<'in_arena>,
        fuel: usize,
    ) -> (result: Result<&'out_arena Term<'out_arena>, Failure>)
        ensures
            final(self).unchanged(old(self)),
            renamed_ref_result(result) == unify_model::rename_closure(
                fuel as nat,
                old(self).elim_env@,
                old(self).meta_var,
                old(self).renaming@,
                closure@,
            ),
        decreases fuel, 1nat, 0nat,
    {
        let var = self.renaming.next_local_var();
        let value = match self.elim_env.apply_closure(closure, var, fuel) {
            Ok(value) => value,
            Err(stop) => {
                return Err(Failure::Stop(stop));
            },
        };
        if !self.renaming.has_room() {
            return Err(Failure::Stop(Stop::Limit));
        }
        let ghost before = self.renaming@;
        self.renaming.push_local();
        let term = self.rename(scope, &value, fuel);
        self.renaming.pop_local();
        assert(self.renaming@.source =~= before.source);
        match term {
            Ok(term) => Ok(scope.to_scope(term)),
            Err(failure) => Err(failure),
        }
    }

    /// Renames a telescope into a sequence of terms.
    fn rename_telescope<'out_arena>(
        &mut self,
        scope: &'out_arena Scope<'out_arena>,
        telescope: &Telescope<'in_arena>,
        fuel: usize,
    ) -> (result: Result<Vec<Term<'out_arena>>, Failure>)
        ensures
            final(self).unchanged(old(self)),
            renamed_terms_result(result) == unify_model::rename_telescope(
                fuel as nat,
                old(self).elim_env@,
                old(self).meta_var,
                old(self).renaming@,
                telescope@,
            ),
        decreases fuel, 1nat, telescope@.terms.len() + 1,
    {
        let mut terms: Vec<Term<'out_arena>> = Vec::new();
        proof {
            lemma_empty_terms(terms@);
        }
        match self.rename_telescope_into(scope, telescope.clone(), &mut terms, fuel) {
            Ok(()) => Ok(terms),
            Err(stop) => Err(stop),
        }
    }

    /// Renames a telescope, adding the terms to `renamed`.
    fn rename_telescope_into<'out_arena>(
        &mut self,
        scope: &'out_arena Scope<'out_arena>,
        telescope: Telescope<'in_arena>,
        renamed: &mut Vec<Term<'out_arena>>,
        fuel: usize,
    ) -> (result: Result<(), Failure>)
        ensures
            final(self).unchanged(old(self)),
            match unify_model::rename_telescope(
                fuel as nat,
                old(self).elim_env@,
                old(self).meta_var,
                old(self).renaming@,
                telescope@,
            ) {
                Ok(rest) => result is Ok && terms_view(final(renamed)@) == terms_view(old(renamed)@)
                    + rest,
                Err(stop) => result == Err::<(), _>(stop),
            },
        decreases fuel, 1nat, telescope@.terms.len(),
    {
        match self.elim_env.split_telescope(telescope, fuel) {
            Ok(Some((value, next_telescope))) => {
                let term = match self.rename(scope, &value, fuel) {
                    Ok(term) => term,
                    Err(failure) => {
                        return Err(failure);
                    },
                };
                if !self.renaming.has_room() {
                    return Err(Failure::Stop(Stop::Limit));
                }
                let var = self.renaming.next_local_var();
                let telescope = next_telescope.resume(var);
                proof {
                    lemma_push_term(renamed@, term);
                    let rest = unify_model::rename_telescope(
                        fuel as nat,
                        self.elim_env@,
                        self.meta_var,
                        unify_model::push_local(self.renaming@),
                        telescope@,
                    );
                    if rest is Ok {
                        lemma_prepend(terms_view(renamed@), term@, rest->Ok_0);
                    }
                }
                renamed.push(term);
                let ghost before = self.renaming@;
                self.renaming.push_local();
                let result = self.rename_telescope_into(scope, telescope, renamed, fuel);
                self.renaming.pop_local();
                assert(self.renaming@.source =~= before.source);
                result
            },
            Ok(None) => {
                proof {
                    lemma_empty_terms(renamed@);
                }
                Ok(())
            },
            Err(stop) => Err(Failure::Stop(stop)),
        }
    }

    /// Renames values in order, up to the first that fails.
    fn rename_all<'out_arena>(
        &mut self,
        scope: &'out_arena Scope<'out_arena>,
        values: &Vec<ArcValue<'in_arena>>,
        fuel: usize,
    ) -> (result: Result<Vec<Term<'out_arena>>, Failure>)
        ensures
            final(self).unchanged(old(self)),
            renamed_terms_result(result) == unify_model::rename_all(
                fuel as nat,
                old(self).elim_env@,
                old(self).meta_var,
                old(self).renaming@,
                values_view(values@),
                0,
            ),
        decreases fuel, 1nat, 0nat,
    {
        let mut terms: Vec<Term<'out_arena>> = Vec::new();
        let mut i: usize = 0;
        proof {
            lemma_empty_terms(terms@);
        }
        while i < values.len()
            invariant
                i <= values.len(),
                self.unchanged(old(self)),
                unify_model::rename_all(
                    fuel as nat,
                    self.elim_env@,
                    self.meta_var,
                    self.renaming@,
                    values_view(values@),
                    0,
                ) == prepend_terms(
                    terms_view(terms@),
                    unify_model::rename_all(
                    fuel as nat,
                    self.elim_env@,
                    self.meta_var,
                    self.renaming@,
                        values_view(values@),
                        i as int,
                    ),
                ),
            decreases values.len() - i,
        {
            let term = match self.rename(scope, &values[i], fuel) {
                Ok(term) => term,
                Err(stop) => {
                    return Err(stop);
                },
            };
            proof {
                lemma_push_term(terms@, term);
                let rest = unify_model::rename_all(
                    fuel as nat,
                    self.elim_env@,
                    self.meta_var,
                    self.renaming@,
                    values_view(values@),
                    i + 1,
                );
                if rest is Ok {
                    lemma_prepend(terms_view(terms@), term@, rest->Ok_0);
                }
            }
            terms.push(term);
            i = i + 1;
        }
        proof {
            lemma_empty_terms(terms@);
        }
        Ok(terms)
    }
}

} // verus!
