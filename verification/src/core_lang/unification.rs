//! Unification: solving metavariables by comparing values.
//!
//! Unification, like conversion checking, compares two values, but where one
//! of them is stuck on a metavariable that is applied to distinct local
//! variables only, the other value becomes the solution of the
//! metavariable. This is known as pattern unification.

use crate::arena::Scope;
use crate::core_lang::elim::SplitBranches;
use crate::core_lang::model;
use crate::core_lang::laws::{is_forced, lemma_force_is_forced};
use crate::core_lang::model::{ArcValueV, Error, Head, Stop, TablesV, ValueV};
use crate::core_lang::rename::{PartialRenaming, RenameEnv};
use crate::core_lang::semantics::{
    clone_value, metas_view, spine_view, values_view, ArcValue, Branches, Closure, Elim, ElimEnv,
    EvalEnv, Telescope, Value,
};
use crate::core_lang::unify_model;
pub use crate::core_lang::unify_model::{Failure, UnifyError};
use crate::core_lang::unify_model::{MetasV, Unified};
use crate::core_lang::{Prim, Term};
use crate::env::{EnvLen, Level, SharedEnv, SliceEnv};
use crate::source::Spanned;
use crate::symbol::StringId;
use std::sync::Arc;
use vstd::prelude::*;

verus! {

/// Whether a table of solutions holds every solution of another: it has
/// the same metavariables, and each one that had a solution has the same.
pub open spec fn extends(before: MetasV, after: MetasV) -> bool {
    after.len() == before.len() && forall|i: int|
        0 <= i < before.len() && (#[trigger] before[i]) is Some ==> after[i] == before[i]
}

/// Unification context.
pub struct Context<'arena, 'env> {
    /// The arena that the terms of the solutions are placed in.
    pub scope: &'arena Scope<'arena>,
    /// The values of the items.
    pub item_exprs: &'env SliceEnv<ArcValue<'arena>>,
    /// The length of the local environment.
    pub local_exprs: EnvLen,
    /// The solutions of the metavariables, which unification adds to.
    pub meta_exprs: &'env mut SliceEnv<Option<ArcValue<'arena>>>,
}

/// Whether two slices of labels hold the same labels in the same order.
fn labels_equal(labels0: &[StringId], labels1: &[StringId]) -> (equal: bool)
    ensures
        equal == (labels0@ == labels1@),
{
    if labels0.len() != labels1.len() {
        return false;
    }
    let mut i: usize = 0;
    while i < labels0.len()
        invariant
            i <= labels0.len(),
            labels0@.len() == labels1@.len(),
            forall|k: int| 0 <= k < i ==> labels0@[k] == labels1@[k],
        decreases labels0.len() - i,
    {
        if labels0[i] != labels1[i] {
            return false;
        }
        i = i + 1;
    }
    assert(labels0@ =~= labels1@);
    true
}

/// Whether a value is the sentinel for an error that has been reported.
fn is_reported_error<'arena>(value: &ArcValue<'arena>) -> (reported: bool)
    ensures
        reported == model::is_reported_error(value@),
{
    match &*value.inner {
        Value::Stuck(Head::Prim(Prim::ReportedError), _) => true,
        _ => false,
    }
}

/// The term wrapped in as many function literals as given.
fn fun_intros<'arena>(scope: &'arena Scope<'arena>, count: usize, term: Term<'arena>) -> (wrapped:
    Term<'arena>)
    ensures
        wrapped@ == unify_model::fun_intros(count as nat, term@),
{
    let mut wrapped = term;
    let mut left = count;
    while left > 0
        invariant
            unify_model::fun_intros(count as nat, term@) == unify_model::fun_intros(
                left as nat,
                wrapped@,
            ),
        decreases left,
    {
        let span = wrapped.span();
        wrapped = Term::FunLit(span, None, scope.to_scope(wrapped));
        left = left - 1;
    }
    wrapped
}

impl<'arena, 'env> Context<'arena, 'env> {
    pub fn new(
        scope: &'arena Scope<'arena>,
        item_exprs: &'env SliceEnv<ArcValue<'arena>>,
        local_exprs: EnvLen,
        meta_exprs: &'env mut SliceEnv<Option<ArcValue<'arena>>>,
    ) -> (context: Context<'arena, 'env>)
        ensures
            context.scope == scope,
            context.item_exprs == item_exprs,
            context.local_exprs == local_exprs,
            *context.meta_exprs == *old(meta_exprs),
            *final(context.meta_exprs) == *final(meta_exprs),
    {
        Context { scope, item_exprs, local_exprs, meta_exprs }
    }

    /// The models of the values of the items.
    pub open spec fn items(&self) -> Seq<ArcValueV> {
        values_view(self.item_exprs@)
    }

    /// The models of the solutions of the metavariables.
    pub open spec fn metas(&self) -> MetasV {
        metas_view(self.meta_exprs@)
    }

    /// The model of what elimination depends on.
    pub open spec fn tables(&self) -> TablesV {
        unify_model::tables(self.items(), self.metas())
    }

    /// Whether this state of the context came of another by unification:
    /// it is in the same scope, and every solution that was there is there
    /// as it was.
    pub open spec fn follows(&self, other: &Context<'arena, 'env>) -> bool {
        self.scope == other.scope && self.item_exprs == other.item_exprs && self.local_exprs
            == other.local_exprs && extends(other.metas(), self.metas())
    }

    /// Whether a step of unification did what the model says: on success
    /// the solutions are those of the model, and a failure is that of the
    /// model.
    pub open spec fn did(&self, result: Result<(), Failure>, unified: Unified) -> bool {
        match unified {
            Ok(solved) => result is Ok && self.metas() == solved,
            Err(failure) => result == Err::<(), _>(failure),
        }
    }

    /// What unifying two values in this context yields.
    pub open spec fn spec_unify(&self, fuel: nat, value0: ArcValueV, value1: ArcValueV) -> Unified {
        unify_model::unify(
            fuel,
            self.items(),
            self.metas(),
            self.local_exprs.0 as nat,
            value0,
            value1,
        )
    }

    /// The environment of the eliminations under the solutions found so
    /// far.
    fn elim_env(&self) -> (env: ElimEnv<'arena, '_>)
        ensures
            env@ == self.tables(),
    {
        ElimEnv::new(self.item_exprs, &*self.meta_exprs)
    }

    /// A fresh variable for the parameter of a binder.
    fn fresh_var(&self) -> (var: ArcValue<'arena>)
        ensures
            var@ == model::fresh_var(self.local_exprs.0 as nat),
    {
        Spanned::empty(Arc::new(Value::local_var(self.local_exprs.next_level())))
    }

    /// Forces a value under the solutions found so far.
    fn force(&self, value: &ArcValue<'arena>, fuel: usize) -> (result: Result<
        ArcValue<'arena>,
        Failure,
    >)
        ensures
            match model::force(fuel as nat, self.tables(), value@) {
                Ok(forced) => result matches Ok(found) && found@ == forced && is_forced(
                    self.metas(),
                    forced,
                ),
                Err(stop) => result == Err::<ArcValue, _>(Failure::Stop(stop)),
            },
    {
        proof {
            if model::force(fuel as nat, self.tables(), value@) is Ok {
                lemma_force_is_forced(fuel as nat, self.tables(), value@);
            }
        }
        match self.elim_env().force(value, fuel) {
            Ok(forced) => Ok(forced),
            Err(stop) => Err(Failure::Stop(stop)),
        }
    }

    /// Applies a closure under the solutions found so far.
    fn apply_closure(&self, closure: &Closure<'arena>, value: ArcValue<'arena>, fuel: usize) -> (result:
        Result<ArcValue<'arena>, Failure>)
        ensures
            match model::apply_closure(fuel as nat, self.tables(), closure@, value@) {
                Ok(applied) => result matches Ok(found) && found@ == applied,
                Err(stop) => result == Err::<ArcValue, _>(Failure::Stop(stop)),
            },
    {
        match self.elim_env().apply_closure(closure, value, fuel) {
            Ok(applied) => Ok(applied),
            Err(stop) => Err(Failure::Stop(stop)),
        }
    }

    /// Unify two values, in at most `fuel` nested steps: the solutions of
    /// the metavariables that make the values equal are recorded. Where
    /// unification fails, the solutions that it found on the way stay.
    pub fn unify(&mut self, value0: &ArcValue<'arena>, value1: &ArcValue<'arena>, fuel: usize) -> (result:
        Result<(), Failure>)
        ensures
            final(self).follows(old(self)),
            final(self).did(result, old(self).spec_unify(fuel as nat, value0@, value1@)),
        decreases fuel, 0nat, 0nat,
    {
        if fuel == 0 {
            return Err(Failure::Stop(Stop::Limit));
        }
        let value0 = match self.force(value0, fuel - 1) {
            Ok(value0) => value0,
            Err(failure) => {
                return Err(failure);
            },
        };
        let value1 = match self.force(value1, fuel - 1) {
            Ok(value1) => value1,
            Err(failure) => {
                return Err(failure);
            },
        };
        self.unify_forced(&value0, &value1, fuel - 1)
    }

    /// Unifies two values that have been forced.
    fn unify_forced(
        &mut self,
        value0: &ArcValue<'arena>,
        value1: &ArcValue<'arena>,
        fuel: usize,
    ) -> (result: Result<(), Failure>)
        requires
            is_forced(old(self).metas(), value0@),
            is_forced(old(self).metas(), value1@),
        ensures
            final(self).follows(old(self)),
            final(self).did(
                result,
                unify_model::unify_forced(
                    fuel as nat,
                    old(self).items(),
                    old(self).metas(),
                    old(self).local_exprs.0 as nat,
                    value0@,
                    value1@,
                ),
            ),
        decreases fuel, 8nat, 0nat,
    {
        if is_reported_error(value0) || is_reported_error(value1) {
            return Ok(());
        }
        match (&*value0.inner, &*value1.inner) {
            (Value::Stuck(head0, spine0), Value::Stuck(head1, spine1)) => {
                if *head0 == *head1 {
                    if spine0.len() == spine1.len() {
                        self.unify_spines(spine0, spine1, fuel)
                    } else {
                        Err(Failure::Unify(UnifyError::Mismatch))
                    }
                } else {
                    self.unify_flexible(value0, value1, fuel)
                }
            },
            (Value::Universe, Value::Universe) => Ok(()),
            (
                Value::FunType(_, param_type0, body_type0),
                Value::FunType(_, param_type1, body_type1),
            ) => self.unify_bound(param_type0, body_type0, param_type1, body_type1, fuel),
            (Value::FunLit(_, body_expr0), Value::FunLit(_, body_expr1)) => {
                self.unify_closures(body_expr0, body_expr1, fuel)
            },
            (Value::FunLit(_, body_expr), _) => self.unify_fun_lit(body_expr, value1, fuel),
            (_, Value::FunLit(_, body_expr)) => self.unify_fun_lit(body_expr, value0, fuel),
            (_, _) => self.unify_shapes(value0, value1, fuel),
        }
    }

    /// Unifies two forced values of which none is stuck or a function.
    fn unify_shapes(
        &mut self,
        value0: &ArcValue<'arena>,
        value1: &ArcValue<'arena>,
        fuel: usize,
    ) -> (result: Result<(), Failure>)
        requires
            is_forced(old(self).metas(), value0@),
            is_forced(old(self).metas(), value1@),
            !model::is_reported_error(value0@),
            !model::is_reported_error(value1@),
            !(value0@.value is Stuck && value1@.value is Stuck),
            !(value0@.value is Universe && value1@.value is Universe),
            !(value0@.value is FunType && value1@.value is FunType),
            !(value0@.value is FunLit),
            !(value1@.value is FunLit),
        ensures
            final(self).follows(old(self)),
            final(self).did(
                result,
                unify_model::unify_forced(
                    fuel as nat,
                    old(self).items(),
                    old(self).metas(),
                    old(self).local_exprs.0 as nat,
                    value0@,
                    value1@,
                ),
            ),
        decreases fuel, 7nat, 0nat,
    {
        match (&*value0.inner, &*value1.inner) {
            (Value::RecordType(labels0, types0), Value::RecordType(labels1, types1)) => {
                if labels_equal(labels0, labels1) {
                    self.unify_telescopes(types0, types1, fuel)
                } else {
                    Err(Failure::Unify(UnifyError::Mismatch))
                }
            },
            (Value::RecordLit(labels0, exprs0), Value::RecordLit(labels1, exprs1)) => {
                if labels_equal(labels0, labels1) && exprs0.len() == exprs1.len() {
                    self.unify_all(exprs0, exprs1, fuel)
                } else {
                    Err(Failure::Unify(UnifyError::Mismatch))
                }
            },
            (Value::RecordLit(labels, exprs), _) => self.unify_record_lit(
                labels,
                exprs,
                value1,
                fuel,
            ),
            (_, Value::RecordLit(labels, exprs)) => self.unify_record_lit(
                labels,
                exprs,
                value0,
                fuel,
            ),
            (Value::ArrayLit(exprs0), Value::ArrayLit(exprs1)) => {
                if exprs0.len() == exprs1.len() {
                    self.unify_all(exprs0, exprs1, fuel)
                } else {
                    Err(Failure::Unify(UnifyError::Mismatch))
                }
            },
            (Value::FormatRecord(labels0, formats0), Value::FormatRecord(labels1, formats1)) => {
                if labels_equal(labels0, labels1) {
                    self.unify_telescopes(formats0, formats1, fuel)
                } else {
                    Err(Failure::Unify(UnifyError::Mismatch))
                }
            },
            (Value::FormatOverlap(labels0, formats0), Value::FormatOverlap(labels1, formats1)) => {
                if labels_equal(labels0, labels1) {
                    self.unify_telescopes(formats0, formats1, fuel)
                } else {
                    Err(Failure::Unify(UnifyError::Mismatch))
                }
            },
            (
                Value::FormatCond(label0, format0, cond0),
                Value::FormatCond(label1, format1, cond1),
            ) => {
                if *label0 == *label1 {
                    self.unify_bound(format0, cond0, format1, cond1, fuel)
                } else {
                    Err(Failure::Unify(UnifyError::Mismatch))
                }
            },
            (Value::ConstLit(const0), Value::ConstLit(const1)) => {
                if *const0 == *const1 {
                    Ok(())
                } else {
                    Err(Failure::Unify(UnifyError::Mismatch))
                }
            },
            (_, _) => self.unify_flexible(value0, value1, fuel),
        }
    }

    /// Unifies two values of different shapes or heads, by solving the
    /// metavariable that one of them is stuck on.
    fn unify_flexible(
        &mut self,
        value0: &ArcValue<'arena>,
        value1: &ArcValue<'arena>,
        fuel: usize,
    ) -> (result: Result<(), Failure>)
        requires
            is_forced(old(self).metas(), value0@),
            is_forced(old(self).metas(), value1@),
        ensures
            final(self).follows(old(self)),
            final(self).did(
                result,
                unify_model::unify_flexible(
                    fuel as nat,
                    old(self).items(),
                    old(self).metas(),
                    old(self).local_exprs.0 as nat,
                    value0@,
                    value1@,
                ),
            ),
    {
        match (&*value0.inner, &*value1.inner) {
            (
                Value::Stuck(Head::MetaVar(var0), spine0),
                Value::Stuck(Head::MetaVar(var1), spine1),
            ) => {
                if var0.0 >= var1.0 {
                    self.solve(*var0, spine0, value1, fuel)
                } else {
                    self.solve(*var1, spine1, value0, fuel)
                }
            },
            (Value::Stuck(Head::MetaVar(var), spine), _) => self.solve(*var, spine, value1, fuel),
            (_, Value::Stuck(Head::MetaVar(var), spine)) => self.solve(*var, spine, value0, fuel),
            (_, _) => Err(Failure::Unify(UnifyError::Mismatch)),
        }
    }

    /// Unifies two values, and two closures that bind what the values are
    /// the types or the formats of.
    fn unify_bound(
        &mut self,
        value0: &ArcValue<'arena>,
        closure0: &Closure<'arena>,
        value1: &ArcValue<'arena>,
        closure1: &Closure<'arena>,
        fuel: usize,
    ) -> (result: Result<(), Failure>)
        ensures
            final(self).follows(old(self)),
            final(self).did(
                result,
                match old(self).spec_unify(fuel as nat, value0@, value1@) {
                    Ok(metas) => unify_model::unify_closures(
                        fuel as nat,
                        old(self).items(),
                        metas,
                        old(self).local_exprs.0 as nat,
                        closure0@,
                        closure1@,
                    ),
                    Err(failure) => Err(failure),
                },
            ),
        decreases fuel, 3nat, 0nat,
    {
        match self.unify(value0, value1, fuel) {
            Ok(()) => self.unify_closures(closure0, closure1, fuel),
            Err(failure) => Err(failure),
        }
    }

    /// Unifies two eliminations.
    fn unify_elims(&mut self, elim0: &Elim<'arena>, elim1: &Elim<'arena>, fuel: usize) -> (result:
        Result<(), Failure>)
        ensures
            final(self).follows(old(self)),
            final(self).did(
                result,
                unify_model::unify_elims(
                    fuel as nat,
                    old(self).items(),
                    old(self).metas(),
                    old(self).local_exprs.0 as nat,
                    elim0@,
                    elim1@,
                ),
            ),
        decreases fuel, 5nat, 0nat,
    {
        match (elim0, elim1) {
            (Elim::FunApp(expr0), Elim::FunApp(expr1)) => self.unify(expr0, expr1, fuel),
            (Elim::RecordProj(label0), Elim::RecordProj(label1)) => {
                if *label0 == *label1 {
                    Ok(())
                } else {
                    Err(Failure::Unify(UnifyError::Mismatch))
                }
            },
            (Elim::ConstMatch(branches0), Elim::ConstMatch(branches1)) => {
                self.unify_branches(branches0.clone(), branches1.clone(), fuel)
            },
            (_, _) => Err(Failure::Unify(UnifyError::Mismatch)),
        }
    }

    /// Unifies two spines of one length, from position `from` on.
    fn unify_spines_from(
        &mut self,
        spine0: &Vec<Elim<'arena>>,
        spine1: &Vec<Elim<'arena>>,
        from: usize,
        fuel: usize,
    ) -> (result: Result<(), Failure>)
        requires
            spine0@.len() == spine1@.len(),
            from <= spine0@.len(),
        ensures
            final(self).follows(old(self)),
            final(self).did(
                result,
                unify_model::unify_spines(
                    fuel as nat,
                    old(self).items(),
                    old(self).metas(),
                    old(self).local_exprs.0 as nat,
                    spine_view(spine0@),
                    spine_view(spine1@),
                    from as int,
                ),
            ),
        decreases fuel, 6nat, spine0@.len() - from,
    {
        if from >= spine0.len() {
            return Ok(());
        }
        match self.unify_elims(&spine0[from], &spine1[from], fuel) {
            Ok(()) => self.unify_spines_from(spine0, spine1, from + 1, fuel),
            Err(failure) => Err(failure),
        }
    }

    /// Unifies two spines of one length.
    fn unify_spines(
        &mut self,
        spine0: &Vec<Elim<'arena>>,
        spine1: &Vec<Elim<'arena>>,
        fuel: usize,
    ) -> (result: Result<(), Failure>)
        requires
            spine0@.len() == spine1@.len(),
        ensures
            final(self).follows(old(self)),
            final(self).did(
                result,
                unify_model::unify_spines(
                    fuel as nat,
                    old(self).items(),
                    old(self).metas(),
                    old(self).local_exprs.0 as nat,
                    spine_view(spine0@),
                    spine_view(spine1@),
                    0,
                ),
            ),
        decreases fuel, 7nat, 0nat,
    {
        self.unify_spines_from(spine0, spine1, 0, fuel)
    }

    /// Unifies two sequences of values of one length, from position `from`
    /// on.
    fn unify_all_from(
        &mut self,
        exprs0: &Vec<ArcValue<'arena>>,
        exprs1: &Vec<ArcValue<'arena>>,
        from: usize,
        fuel: usize,
    ) -> (result: Result<(), Failure>)
        requires
            exprs0@.len() == exprs1@.len(),
            from <= exprs0@.len(),
        ensures
            final(self).follows(old(self)),
            final(self).did(
                result,
                unify_model::unify_all(
                    fuel as nat,
                    old(self).items(),
                    old(self).metas(),
                    old(self).local_exprs.0 as nat,
                    values_view(exprs0@),
                    values_view(exprs1@),
                    from as int,
                ),
            ),
        decreases fuel, 1nat, exprs0@.len() - from,
    {
        if from >= exprs0.len() {
            return Ok(());
        }
        match self.unify(&exprs0[from], &exprs1[from], fuel) {
            Ok(()) => self.unify_all_from(exprs0, exprs1, from + 1, fuel),
            Err(failure) => Err(failure),
        }
    }

    /// Unifies two sequences of values of one length.
    fn unify_all(
        &mut self,
        exprs0: &Vec<ArcValue<'arena>>,
        exprs1: &Vec<ArcValue<'arena>>,
        fuel: usize,
    ) -> (result: Result<(), Failure>)
        requires
            exprs0@.len() == exprs1@.len(),
        ensures
            final(self).follows(old(self)),
            final(self).did(
                result,
                unify_model::unify_all(
                    fuel as nat,
                    old(self).items(),
                    old(self).metas(),
                    old(self).local_exprs.0 as nat,
                    values_view(exprs0@),
                    values_view(exprs1@),
                    0,
                ),
            ),
        decreases fuel, 2nat, 0nat,
    {
        self.unify_all_from(exprs0, exprs1, 0, fuel)
    }

    /// Unifies two values under one more binding.
    fn unify_under(&mut self, value0: &ArcValue<'arena>, value1: &ArcValue<'arena>, fuel: usize) -> (result:
        Result<(), Failure>)
        ensures
            final(self).follows(old(self)),
            final(self).did(
                result,
                unify_model::unify_under(
                    fuel as nat,
                    old(self).items(),
                    old(self).metas(),
                    old(self).local_exprs.0 as nat,
                    value0@,
                    value1@,
                ),
            ),
        decreases fuel, 1nat, 0nat,
    {
        if self.local_exprs.is_full() {
            return Err(Failure::Stop(Stop::Limit));
        }
        self.local_exprs.push();
        let result = self.unify(value0, value1, fuel);
        self.local_exprs.pop();
        result
    }

    /// Unifies two closures.
    fn unify_closures(&mut self, closure0: &Closure<'arena>, closure1: &Closure<'arena>, fuel: usize) -> (result:
        Result<(), Failure>)
        ensures
            final(self).follows(old(self)),
            final(self).did(
                result,
                unify_model::unify_closures(
                    fuel as nat,
                    old(self).items(),
                    old(self).metas(),
                    old(self).local_exprs.0 as nat,
                    closure0@,
                    closure1@,
                ),
            ),
        decreases fuel, 2nat, 0nat,
    {
        let value0 = match self.apply_closure(closure0, self.fresh_var(), fuel) {
            Ok(value0) => value0,
            Err(failure) => {
                return Err(failure);
            },
        };
        let value1 = match self.apply_closure(closure1, self.fresh_var(), fuel) {
            Ok(value1) => value1,
            Err(failure) => {
                return Err(failure);
            },
        };
        self.unify_under(&value0, &value1, fuel)
    }

    /// Unifies two telescopes.
    fn unify_telescopes(
        &mut self,
        telescope0: &Telescope<'arena>,
        telescope1: &Telescope<'arena>,
        fuel: usize,
    ) -> (result: Result<(), Failure>)
        ensures
            final(self).follows(old(self)),
            final(self).did(
                result,
                unify_model::unify_telescopes(
                    fuel as nat,
                    old(self).items(),
                    old(self).metas(),
                    old(self).local_exprs.0 as nat,
                    telescope0@,
                    telescope1@,
                ),
            ),
        decreases fuel, 4nat, 0nat,
    {
        if telescope0.len() != telescope1.len() {
            return Err(Failure::Unify(UnifyError::Mismatch));
        }
        self.unify_values(telescope0.clone(), telescope1.clone(), fuel)
    }

    /// Unifies the values of two telescopes pair by pair.
    fn unify_values(
        &mut self,
        telescope0: Telescope<'arena>,
        telescope1: Telescope<'arena>,
        fuel: usize,
    ) -> (result: Result<(), Failure>)
        ensures
            final(self).follows(old(self)),
            final(self).did(
                result,
                unify_model::unify_values(
                    fuel as nat,
                    old(self).items(),
                    old(self).metas(),
                    old(self).local_exprs.0 as nat,
                    telescope0@,
                    telescope1@,
                ),
            ),
        decreases fuel, 3nat, telescope0@.terms.len(),
    {
        let split0 = match self.elim_env().split_telescope(telescope0, fuel) {
            Ok(split0) => split0,
            Err(stop) => {
                return Err(Failure::Stop(stop));
            },
        };
        let split1 = match self.elim_env().split_telescope(telescope1, fuel) {
            Ok(split1) => split1,
            Err(stop) => {
                return Err(Failure::Stop(stop));
            },
        };
        match (split0, split1) {
            (Some((value0, next_telescope0)), Some((value1, next_telescope1))) => {
                match self.unify(&value0, &value1, fuel) {
                    Ok(()) => {},
                    Err(failure) => {
                        return Err(failure);
                    },
                }
                if self.local_exprs.is_full() {
                    return Err(Failure::Stop(Stop::Limit));
                }
                let telescope0 = next_telescope0.resume(self.fresh_var());
                let telescope1 = next_telescope1.resume(self.fresh_var());
                self.local_exprs.push();
                let result = self.unify_values(telescope0, telescope1, fuel);
                self.local_exprs.pop();
                result
            },
            (_, _) => Ok(()),
        }
    }

    /// Unifies the branches of two matches.
    fn unify_branches(
        &mut self,
        branches0: Branches<'arena>,
        branches1: Branches<'arena>,
        fuel: usize,
    ) -> (result: Result<(), Failure>)
        ensures
            final(self).follows(old(self)),
            final(self).did(
                result,
                unify_model::unify_branches(
                    fuel as nat,
                    old(self).items(),
                    old(self).metas(),
                    old(self).local_exprs.0 as nat,
                    branches0@,
                    branches1@,
                ),
            ),
        decreases fuel, 3nat, branches0@.pattern_branches.len(),
    {
        let split0 = match self.elim_env().split_branches(branches0, fuel) {
            Ok(split0) => split0,
            Err(stop) => {
                return Err(Failure::Stop(stop));
            },
        };
        let split1 = match self.elim_env().split_branches(branches1, fuel) {
            Ok(split1) => split1,
            Err(stop) => {
                return Err(Failure::Stop(stop));
            },
        };
        match (split0, split1) {
            (
                SplitBranches::Branch((const0, body_expr0), next_branches0),
                SplitBranches::Branch((const1, body_expr1), next_branches1),
            ) => {
                if const0 == const1 {
                    match self.unify(&body_expr0, &body_expr1, fuel) {
                        Ok(()) => self.unify_branches(next_branches0, next_branches1, fuel),
                        Err(failure) => Err(failure),
                    }
                } else {
                    Err(Failure::Unify(UnifyError::Mismatch))
                }
            },
            (SplitBranches::Default(default_expr0), SplitBranches::Default(default_expr1)) => {
                self.unify_closures(&default_expr0, &default_expr1, fuel)
            },
            (SplitBranches::End, SplitBranches::End) => Ok(()),
            (_, _) => Err(Failure::Unify(UnifyError::Mismatch)),
        }
    }

    /// Unifies a function literal with a value, using eta-conversion.
    fn unify_fun_lit(&mut self, body_expr: &Closure<'arena>, value: &ArcValue<'arena>, fuel: usize) -> (result:
        Result<(), Failure>)
        ensures
            final(self).follows(old(self)),
            final(self).did(
                result,
                unify_model::unify_fun_lit(
                    fuel as nat,
                    old(self).items(),
                    old(self).metas(),
                    old(self).local_exprs.0 as nat,
                    body_expr@,
                    value@,
                ),
            ),
        decreases fuel, 2nat, 0nat,
    {
        let value = match self.elim_env().fun_app(clone_value(value), self.fresh_var(), fuel) {
            Ok(value) => value,
            Err(stop) => {
                return Err(Failure::Stop(stop));
            },
        };
        let body_expr = match self.apply_closure(body_expr, self.fresh_var(), fuel) {
            Ok(body_expr) => body_expr,
            Err(failure) => {
                return Err(failure);
            },
        };
        self.unify_under(&body_expr, &value, fuel)
    }

    /// Unifies a record literal with a value, using eta-conversion, from
    /// the field at position `from` on.
    fn unify_record_lit_from(
        &mut self,
        labels: &[StringId],
        exprs: &Vec<ArcValue<'arena>>,
        value: &ArcValue<'arena>,
        from: usize,
        fuel: usize,
    ) -> (result: Result<(), Failure>)
        ensures
            final(self).follows(old(self)),
            final(self).did(
                result,
                unify_model::unify_record_lit(
                    fuel as nat,
                    old(self).items(),
                    old(self).metas(),
                    old(self).local_exprs.0 as nat,
                    labels@,
                    values_view(exprs@),
                    value@,
                    from as int,
                ),
            ),
        decreases fuel, 1nat, labels@.len() - from,
    {
        if from >= labels.len() || from >= exprs.len() {
            return Ok(());
        }
        let field_value = match self.elim_env().record_proj(clone_value(value), labels[from]) {
            Ok(field_value) => field_value,
            Err(stop) => {
                return Err(Failure::Stop(stop));
            },
        };
        match self.unify(&exprs[from], &field_value, fuel) {
            Ok(()) => self.unify_record_lit_from(labels, exprs, value, from + 1, fuel),
            Err(failure) => Err(failure),
        }
    }

    /// Unifies a record literal with a value, using eta-conversion.
    fn unify_record_lit(
        &mut self,
        labels: &[StringId],
        exprs: &Vec<ArcValue<'arena>>,
        value: &ArcValue<'arena>,
        fuel: usize,
    ) -> (result: Result<(), Failure>)
        ensures
            final(self).follows(old(self)),
            final(self).did(
                result,
                unify_model::unify_record_lit(
                    fuel as nat,
                    old(self).items(),
                    old(self).metas(),
                    old(self).local_exprs.0 as nat,
                    labels@,
                    values_view(exprs@),
                    value@,
                    0,
                ),
            ),
        decreases fuel, 2nat, 0nat,
    {
        self.unify_record_lit_from(labels, exprs, value, 0, fuel)
    }

    /// The renaming from the arguments of a spine to the parameters of a
    /// solution.
    fn init_renaming(&self, spine: &Vec<Elim<'arena>>, fuel: usize) -> (result: Result<
        PartialRenaming,
        Failure,
    >)
        ensures
            match unify_model::init_renaming(
                fuel as nat,
                self.tables(),
                spine_view(spine@),
                0,
                unify_model::empty_renaming(self.local_exprs.0 as nat),
            ) {
                Ok(renaming) => result matches Ok(found) && found@ == renaming,
                Err(failure) => result matches Err(found) && found == failure,
            },
    {
        let mut renaming = PartialRenaming::new();
        renaming.init(self.local_exprs);
        let mut i: usize = 0;
        while i < spine.len()
            invariant
                i <= spine.len(),
                unify_model::init_renaming(
                    fuel as nat,
                    self.tables(),
                    spine_view(spine@),
                    0,
                    unify_model::empty_renaming(self.local_exprs.0 as nat),
                ) == unify_model::init_renaming(
                    fuel as nat,
                    self.tables(),
                    spine_view(spine@),
                    i as int,
                    renaming@,
                ),
            decreases spine.len() - i,
        {
            match &spine[i] {
                Elim::FunApp(arg_expr) => {
                    let arg = match self.elim_env().force(arg_expr, fuel) {
                        Ok(arg) => arg,
                        Err(stop) => {
                            return Err(Failure::Stop(stop));
                        },
                    };
                    match &*arg.inner {
                        Value::Stuck(Head::LocalVar(source_var), arg_spine) => {
                            assert(arg@.value == ValueV::Stuck(
                                Head::LocalVar(*source_var),
                                spine_view(arg_spine@),
                            ));
                            if arg_spine.len() != 0 || !renaming.in_source(*source_var) {
                                return Err(Failure::Unify(UnifyError::NonPatternSpine));
                            }
                            if renaming.get_as_level(*source_var).is_some() {
                                return Err(Failure::Unify(UnifyError::NonLinearSpine));
                            }
                            if !renaming.set_local(*source_var) {
                                return Err(Failure::Stop(Stop::Limit));
                            }
                        },
                        _ => {
                            return Err(Failure::Unify(UnifyError::NonPatternSpine));
                        },
                    }
                },
                _ => {
                    return Err(Failure::Unify(UnifyError::NonPatternSpine));
                },
            }
            i = i + 1;
        }
        Ok(renaming)
    }

    /// Solves a metavariable that is applied to a spine against a value.
    fn solve(
        &mut self,
        meta_var: Level,
        spine: &Vec<Elim<'arena>>,
        value: &ArcValue<'arena>,
        fuel: usize,
    ) -> (result: Result<(), Failure>)
        requires
            meta_var.0 < old(self).metas().len() ==> old(self).metas()[meta_var.0 as int] is None,
        ensures
            final(self).follows(old(self)),
            final(self).did(
                result,
                unify_model::solve(
                    fuel as nat,
                    old(self).items(),
                    old(self).metas(),
                    old(self).local_exprs.0 as nat,
                    meta_var,
                    spine_view(spine@),
                    value@,
                ),
            ),
    {
        if self.meta_exprs.get_level(meta_var).is_none() {
            return Err(Failure::Stop(Stop::Error(Error::UnboundMetaVar)));
        }
        let renaming = match self.init_renaming(spine, fuel) {
            Ok(renaming) => renaming,
            Err(failure) => {
                return Err(failure);
            },
        };
        let term = {
            let mut env = RenameEnv::new(self.elim_env(), meta_var, renaming);
            env.rename(self.scope, value, fuel)
        };
        let term = match term {
            Ok(term) => term,
            Err(failure) => {
                return Err(failure);
            },
        };
        let fun_term = fun_intros(self.scope, spine.len(), term);
        let solution = {
            let mut locals: SharedEnv<ArcValue<'arena>> = SharedEnv::new();
            assert(values_view(locals@) =~= Seq::<ArcValueV>::empty());
            let mut env = EvalEnv::new(self.elim_env(), &mut locals);
            env.eval(&fun_term, fuel)
        };
        let solution = match solution {
            Ok(solution) => solution,
            Err(stop) => {
                return Err(Failure::Stop(stop));
            },
        };
        let ghost before = self.metas();
        self.meta_exprs.set_level(meta_var, Some(solution));
        assert(self.metas() =~= before.update(meta_var.0 as int, Some(solution@)));
        Ok(())
    }
}

} // verus!
