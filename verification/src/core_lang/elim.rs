//! Eliminations: what happens when a function is applied, a field is
//! projected or a constant is matched.

use crate::core_lang::model;
use crate::core_lang::model::{ArcValueV, Stop, TelescopeV, ValueV};
use crate::core_lang::model::{Error, Head};
use crate::core_lang::semantics::{
    clone_spine, clone_value, lemma_env_view, spine_view, step_result, value_result, values_view, ArcValue,
    Branches, Closure, Elim, ElimEnv, EvalEnv, Telescope, Value,
};
use crate::core_lang::{branches_view, terms_view, Const, Term};
use crate::env::{SharedEnv, SliceEnv};
use crate::shared::take;
use crate::source::{Span, Spanned};
use crate::symbol::StringId;
use std::sync::Arc;
use vstd::prelude::*;
use vstd::slice::slice_subrange;

verus! {

/// The telescope that is left when the first value is split off. It is
/// resumed with the value that the first binding stands for.
pub struct NextTelescope<'arena> {
    pub telescope: Telescope<'arena>,
}

impl<'arena> View for NextTelescope<'arena> {
    type V = TelescopeV;

    open spec fn view(&self) -> TelescopeV {
        self.telescope@
    }
}

impl<'arena> NextTelescope<'arena> {
    /// The telescope of the remaining terms, with `previous_value` bound.
    pub fn resume(self, previous_value: ArcValue<'arena>) -> (telescope: Telescope<'arena>)
        requires
            self@.local_exprs.len() < model::max_len(),
        ensures
            telescope@ == model::resume_telescope(self@, previous_value@),
    {
        proof {
            lemma_env_view(&self.telescope.local_exprs);
        }
        let Telescope { local_exprs, apply_repr, terms } = self.telescope;
        let mut local_exprs = local_exprs;
        local_exprs.push(previous_value);
        let telescope = Telescope { local_exprs, apply_repr, terms };
        proof {
            lemma_env_view(&telescope.local_exprs);
            assert(values_view(telescope.local_exprs@) =~= self@.local_exprs.push(
                previous_value@,
            ));
        }
        telescope
    }
}

/// What splitting the first branch off yields.
pub enum SplitBranches<'arena> {
    /// The pattern of the first branch with its body, and the other
    /// branches.
    Branch((Const, ArcValue<'arena>), Branches<'arena>),
    /// No branch is left, but a default that awaits the scrutinee.
    Default(Closure<'arena>),
    /// Neither a branch nor a default is left.
    End,
}

impl<'arena> View for SplitBranches<'arena> {
    type V = model::SplitBranchesV;

    open spec fn view(&self) -> model::SplitBranchesV {
        match self {
            SplitBranches::Branch((pattern, body), next) => model::SplitBranchesV::Branch(
                (*pattern, body@),
                next@,
            ),
            SplitBranches::Default(default_expr) => model::SplitBranchesV::Default(default_expr@),
            SplitBranches::End => model::SplitBranchesV::End,
        }
    }
}

/// The model of the result of splitting branches.
pub open spec fn split_result(result: Result<SplitBranches, Stop>) -> Result<
    model::SplitBranchesV,
    Stop,
> {
    match result {
        Ok(split) => Ok(split@),
        Err(stop) => Err(stop),
    }
}

/// The model of the result of splitting a telescope.
pub open spec fn telescope_result(
    result: Result<Option<(ArcValue, NextTelescope)>, Stop>,
) -> Result<Option<(ArcValueV, TelescopeV)>, Stop> {
    match result {
        Ok(Some((value, next))) => Ok(Some((value@, next@))),
        Ok(None) => Ok(None),
        Err(stop) => Err(stop),
    }
}

/// Takes a stuck value apart, so that its spine can be extended. The spine
/// is reused where the value is not shared, and copied otherwise. A value
/// that is not stuck is handed back.
fn into_parts<'arena>(value: ArcValue<'arena>) -> (parts: Result<
    (Span, Head, Vec<Elim<'arena>>),
    ArcValue<'arena>,
>)
    ensures
        match parts {
            Ok((span, head, spine)) => value@ == model::spanned(
                span,
                ValueV::Stuck(head, spine_view(spine@)),
            ),
            Err(same) => same@ == value@ && !(value@.value is Stuck),
        },
{
    let Spanned { span, inner } = value;
    match take(inner) {
        Ok(Value::Stuck(head, spine)) => Ok((span, head, spine)),
        Ok(other) => Err(Spanned { span, inner: Arc::new(other) }),
        Err(shared) => {
            let stuck = match &*shared {
                Value::Stuck(head, spine) => Some((*head, clone_spine(spine))),
                _ => None,
            };
            match stuck {
                Some((head, spine)) => Ok((span, head, spine)),
                None => Err(Spanned { span, inner: shared }),
            }
        },
    }
}

/// The stuck value with one more elimination on its spine.
fn extend<'arena>(span: Span, head: Head, spine: Vec<Elim<'arena>>, elim: Elim<'arena>) -> (stuck:
    (Head, Vec<Elim<'arena>>))
    ensures
        stuck.0 == head,
        spine_view(stuck.1@) == spine_view(spine@).push(elim@),
{
    let mut spine = spine;
    let ghost before = spine_view(spine@);
    spine.push(elim);
    assert(spine_view(spine@) =~= before.push(elim@));
    (head, spine)
}

/// The position of the first of the labels that is `label`.
fn position(labels: &[StringId], label: StringId) -> (found: Option<usize>)
    ensures
        match found {
            Some(i) => model::label_position(labels@, label, 0) == Some(i as int),
            None => model::label_position(labels@, label, 0) is None,
        },
{
    let mut i: usize = 0;
    while i < labels.len()
        invariant
            model::label_position(labels@, label, 0) == model::label_position(
                labels@,
                label,
                i as int,
            ),
        decreases labels.len() - i,
    {
        if labels[i] == label {
            return Some(i);
        }
        i = i + 1;
    }
    None
}

/// The position of the first of the branches whose pattern is the constant.
fn branch_position<'arena>(branches: &[(Const, Term<'arena>)], constant: Const) -> (found: Option<
    usize,
>)
    ensures
        match found {
            Some(i) => model::branch_position(branches_view(branches@), constant, 0) == Some(
                i as int,
            ) && i < branches@.len(),
            None => model::branch_position(branches_view(branches@), constant, 0) is None,
        },
{
    let mut i: usize = 0;
    while i < branches.len()
        invariant
            model::branch_position(branches_view(branches@), constant, 0)
                == model::branch_position(branches_view(branches@), constant, i as int),
        decreases branches.len() - i,
    {
        if constant == branches[i].0 {
            return Some(i);
        }
        i = i + 1;
    }
    None
}

impl<'arena, 'env> ElimEnv<'arena, 'env> {
    pub fn new(
        item_exprs: &'env SliceEnv<ArcValue<'arena>>,
        meta_exprs: &'env SliceEnv<Option<ArcValue<'arena>>>,
    ) -> (env: ElimEnv<'arena, 'env>)
        ensures
            env == (ElimEnv { item_exprs, meta_exprs }),
    {
        ElimEnv { item_exprs, meta_exprs }
    }

    pub fn eval_env(&self, local_exprs: &'env mut SharedEnv<ArcValue<'arena>>) -> (env: EvalEnv<
        'arena,
        'env,
    >)
        ensures
            env.elim_env == *self,
            *env.local_exprs == *old(local_exprs),
            *final(env.local_exprs) == *final(local_exprs),
    {
        EvalEnv::new(*self, local_exprs)
    }

    /// Evaluates a term in a copy of an environment, with one more binding
    /// where `bound` holds one.
    fn eval_in(
        &self,
        local_exprs: &SharedEnv<ArcValue<'arena>>,
        bound: Option<ArcValue<'arena>>,
        term: &Term<'arena>,
        fuel: usize,
    ) -> (result: Result<ArcValue<'arena>, Stop>)
        requires
            bound is Some ==> local_exprs@.len() < model::max_len(),
        ensures
            value_result(result) == model::eval(
                fuel as nat,
                self@,
                match bound {
                    Some(value) => values_view(local_exprs@).push(value@),
                    None => values_view(local_exprs@),
                },
                term@,
            ),
        decreases fuel, 1nat,
    {
        let mut scratch = local_exprs.clone();
        match bound {
            Some(value) => {
                scratch.push(value);
                assert(values_view(scratch@) =~= values_view(local_exprs@).push(value@));
            },
            None => {},
        }
        let mut env = EvalEnv::new(*self, &mut scratch);
        env.eval(term, fuel)
    }

    /// Bring a value up to date with any new unification solutions that
    /// might now be present at its head.
    pub fn force(&self, value: &ArcValue<'arena>, fuel: usize) -> (result: Result<
        ArcValue<'arena>,
        Stop,
    >)
        ensures
            value_result(result) == model::force(fuel as nat, self@, value@),
        decreases fuel, 3nat,
    {
        let mut forced_value = clone_value(value);
        let mut left = fuel;
        // Attempt to force metavariables until we don't see any more.
        loop
            invariant
                model::force(fuel as nat, self@, value@) == model::force(
                    left as nat,
                    self@,
                    forced_value@,
                ),
                left <= fuel,
            decreases left,
        {
            if left == 0 {
                return Err(Stop::Limit);
            }
            match self.force_step(&forced_value, left - 1) {
                Ok(Some(next)) => {
                    forced_value = next;
                    left = left - 1;
                },
                Ok(None) => {
                    return Ok(forced_value);
                },
                Err(stop) => {
                    return Err(stop);
                },
            }
        }
    }

    /// One step of forcing: the solution of the metavariable at the head of
    /// the value, applied to its spine; or nothing where the head is no
    /// solved metavariable.
    fn force_step(&self, value: &ArcValue<'arena>, fuel: usize) -> (result: Result<
        Option<ArcValue<'arena>>,
        Stop,
    >)
        ensures
            step_result(result) == model::force_step(fuel as nat, self@, value@),
        decreases fuel, 2nat,
    {
        match &*value.inner {
            Value::Stuck(Head::MetaVar(var), spine) => match self.meta_exprs.get_level(*var) {
                // Apply the spine to the solution. This might uncover
                // another metavariable.
                Some(Some(expr)) => match self.apply_spine(clone_value(expr), spine, fuel) {
                    Ok(next) => Ok(Some(next)),
                    Err(stop) => Err(stop),
                },
                // The metavariable has no solution yet: the value is forced
                // as far as it can be.
                Some(None) => Ok(None),
                None => Err(Stop::Error(Error::UnboundMetaVar)),
            },
            _ => Ok(None),
        }
    }

    /// Apply a closure to a value.
    pub fn apply_closure(&self, closure: &Closure<'arena>, value: ArcValue<'arena>, fuel: usize) -> (result:
        Result<ArcValue<'arena>, Stop>)
        ensures
            value_result(result) == model::apply_closure(fuel as nat, self@, closure@, value@),
        decreases fuel, 1nat,
    {
        proof {
            lemma_env_view(&closure.local_exprs);
        }
        if fuel == 0 || closure.local_exprs.is_full() {
            return Err(Stop::Limit);
        }
        self.eval_in(&closure.local_exprs, Some(value), closure.term, fuel - 1)
    }

    /// Split a telescope into the first value, and the telescope of the rest
    /// of the values, which is to be resumed with the value that the first
    /// binding stands for.
    pub fn split_telescope(&self, telescope: Telescope<'arena>, fuel: usize) -> (result: Result<
        Option<(ArcValue<'arena>, NextTelescope<'arena>)>,
        Stop,
    >)
        ensures
            telescope_result(result) == model::split_telescope(fuel as nat, self@, telescope@),
            result matches Ok(Some((_, next))) ==> next@.local_exprs.len() < model::max_len(),
        decreases fuel, 1nat,
    {
        proof {
            lemma_env_view(&telescope.local_exprs);
        }
        if telescope.terms.len() == 0 {
            return Ok(None);
        }
        if fuel == 0 || telescope.local_exprs.is_full() {
            return Err(Stop::Limit);
        }
        let f = fuel - 1;
        let value = match self.eval_in(&telescope.local_exprs, None, &telescope.terms[0], f) {
            Ok(value) => value,
            Err(stop) => {
                return Err(stop);
            },
        };
        let value = if telescope.apply_repr {
            match self.format_repr(&value, f) {
                Ok(repr) => repr,
                Err(stop) => {
                    return Err(stop);
                },
            }
        } else {
            value
        };
        let Telescope { local_exprs, apply_repr, terms } = telescope;
        let rest = slice_subrange(terms, 1, terms.len());
        let next = NextTelescope { telescope: Telescope { local_exprs, apply_repr, terms: rest } };
        proof {
            lemma_env_view(&next.telescope.local_exprs);
            assert(terms_view(rest@) =~= terms_view(terms@).subrange(1, terms@.len() as int));
        }
        Ok(Some((value, next)))
    }

    /// Split the first branch off: its pattern, with its body evaluated, and
    /// the other branches. Where no branch is left, the default is given as
    /// a closure that awaits the scrutinee.
    pub fn split_branches(&self, branches: Branches<'arena>, fuel: usize) -> (result: Result<
        SplitBranches<'arena>,
        Stop,
    >)
        ensures
            split_result(result) == model::split_branches(fuel as nat, self@, branches@),
        decreases fuel, 1nat,
    {
        proof {
            lemma_env_view(&branches.local_exprs);
        }
        if branches.pattern_branches.len() == 0 {
            let Branches { local_exprs, pattern_branches, default_expr } = branches;
            return match default_expr {
                Some(default_expr) => {
                    let closure = Closure::new(local_exprs, default_expr);
                    proof {
                        lemma_env_view(&closure.local_exprs);
                    }
                    Ok(SplitBranches::Default(closure))
                },
                None => Ok(SplitBranches::End),
            };
        }
        if fuel == 0 {
            return Err(Stop::Limit);
        }
        let evaluated = self.eval_in(
            &branches.local_exprs,
            None,
            &branches.pattern_branches[0].1,
            fuel - 1,
        );
        match evaluated {
            Ok(body) => {
                let Branches { local_exprs, pattern_branches, default_expr } = branches;
                let rest = slice_subrange(pattern_branches, 1, pattern_branches.len());
                let next = Branches { local_exprs, pattern_branches: rest, default_expr };
                proof {
                    lemma_env_view(&next.local_exprs);
                    assert(branches_view(rest@) =~= branches_view(pattern_branches@).subrange(
                        1,
                        pattern_branches@.len() as int,
                    ));
                }
                Ok(SplitBranches::Branch((pattern_branches[0].0, body), next))
            },
            Err(stop) => Err(stop),
        }
    }

    /// Apply a function application to an expression, performing beta
    /// reduction if possible.
    pub fn fun_app(
        &self,
        head_expr: ArcValue<'arena>,
        arg_expr: ArcValue<'arena>,
        fuel: usize,
    ) -> (result: Result<ArcValue<'arena>, Stop>)
        ensures
            value_result(result) == model::fun_app(fuel as nat, self@, head_expr@, arg_expr@),
        decreases fuel, 0nat,
    {
        if fuel == 0 {
            return Err(Stop::Limit);
        }
        let f = fuel - 1;
        match into_parts(head_expr) {
            // The computation is stuck, preventing further reduction
            Ok((span, head, spine)) => {
                let (head, spine) = extend(span, head, spine, Elim::FunApp(arg_expr));
                match head {
                    Head::Prim(prim) => match self.prim_step(prim, &spine, f) {
                        Ok(Some(reduced)) => Ok(reduced),
                        Ok(None) => Ok(Spanned::new(span, Arc::new(Value::Stuck(head, spine)))),
                        Err(stop) => Err(stop),
                    },
                    _ => Ok(Spanned::new(span, Arc::new(Value::Stuck(head, spine)))),
                }
            },
            Err(head_expr) => match &*head_expr.inner {
                // Beta-reduction
                Value::FunLit(_, body_expr) => self.apply_closure(body_expr, arg_expr, f),
                _ => Err(Stop::Error(Error::InvalidFunctionApp)),
            },
        }
    }

    /// Apply a record projection to an expression, performing beta
    /// reduction if possible.
    pub fn record_proj(&self, head_expr: ArcValue<'arena>, label: StringId) -> (result: Result<
        ArcValue<'arena>,
        Stop,
    >)
        ensures
            value_result(result) == model::record_proj(head_expr@, label),
    {
        match into_parts(head_expr) {
            // The computation is stuck, preventing further reduction
            Ok((span, head, spine)) => {
                let (head, spine) = extend(span, head, spine, Elim::RecordProj(label));
                Ok(Spanned::new(span, Arc::new(Value::Stuck(head, spine))))
            },
            Err(head_expr) => match &*head_expr.inner {
                // Beta-reduction
                Value::RecordLit(labels, exprs) => {
                    assert(head_expr@.value == ValueV::RecordLit(labels@, values_view(exprs@)));
                    match position(labels, label) {
                        Some(i) => if i < exprs.len() {
                            Ok(clone_value(&exprs[i]))
                        } else {
                            Err(Stop::Error(Error::InvalidRecordProj))
                        },
                        None => Err(Stop::Error(Error::InvalidRecordProj)),
                    }
                },
                _ => Err(Stop::Error(Error::InvalidRecordProj)),
            },
        }
    }

    /// Apply a constant match to an expression, performing beta reduction
    /// if possible.
    pub fn const_match(
        &self,
        head_expr: ArcValue<'arena>,
        branches: Branches<'arena>,
        fuel: usize,
    ) -> (result: Result<ArcValue<'arena>, Stop>)
        ensures
            value_result(result) == model::const_match(fuel as nat, self@, head_expr@, branches@),
        decreases fuel, 0nat,
    {
        if fuel == 0 {
            return Err(Stop::Limit);
        }
        let f = fuel - 1;
        match into_parts(head_expr) {
            // The computation is stuck, preventing further reduction
            Ok((span, head, spine)) => {
                let (head, spine) = extend(span, head, spine, Elim::ConstMatch(branches));
                Ok(Spanned::new(span, Arc::new(Value::Stuck(head, spine))))
            },
            Err(head_expr) => {
                let constant = match &*head_expr.inner {
                    Value::ConstLit(constant) => *constant,
                    _ => {
                        return Err(Stop::Error(Error::InvalidConstMatch));
                    },
                };
                proof {
                    lemma_env_view(&branches.local_exprs);
                }
                // Try each branch
                match branch_position(branches.pattern_branches, constant) {
                    Some(i) => self.eval_in(
                        &branches.local_exprs,
                        None,
                        &branches.pattern_branches[i].1,
                        f,
                    ),
                    // Otherwise call default with `head_expr`
                    None => match branches.default_expr {
                        Some(default_expr) => {
                            if branches.local_exprs.is_full() {
                                return Err(Stop::Limit);
                            }
                            self.eval_in(&branches.local_exprs, Some(head_expr), default_expr, f)
                        },
                        None => Err(Stop::Error(Error::MissingConstDefault)),
                    },
                }
            },
        }
    }

    /// Apply an expression to an elimination spine.
    pub fn apply_spine(&self, head_expr: ArcValue<'arena>, spine: &Vec<Elim<'arena>>, fuel: usize) -> (result:
        Result<ArcValue<'arena>, Stop>)
        ensures
            value_result(result) == model::apply_spine(
                fuel as nat,
                self@,
                head_expr@,
                spine_view(spine@),
                0,
            ),
        decreases fuel, 1nat,
    {
        let mut applied = head_expr;
        let mut i: usize = 0;
        while i < spine.len()
            invariant
                i <= spine.len(),
                model::apply_spine(fuel as nat, self@, head_expr@, spine_view(spine@), 0)
                    == model::apply_spine(
                    fuel as nat,
                    self@,
                    applied@,
                    spine_view(spine@),
                    i as int,
                ),
            decreases spine.len() - i,
        {
            let next = match &spine[i] {
                Elim::FunApp(arg_expr) => self.fun_app(applied, clone_value(arg_expr), fuel),
                Elim::RecordProj(label) => self.record_proj(applied, *label),
                Elim::ConstMatch(split) => self.const_match(applied, split.clone(), fuel),
            };
            applied = match next {
                Ok(next) => next,
                Err(stop) => {
                    return Err(stop);
                },
            };
            i = i + 1;
        }
        Ok(applied)
    }
}

} // verus!
