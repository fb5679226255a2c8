//! Conversion checking: whether two values are computationally equal.

use crate::core_lang::elim::SplitBranches;
use crate::core_lang::model;
use crate::core_lang::model::{ArcValueV, Head, Stop};
use crate::core_lang::semantics::{
    clone_value, spine_view, values_view, ArcValue, Branches, Closure, Elim, ElimEnv, Telescope,
    Value,
};
use crate::core_lang::Prim;
use crate::env::EnvLen;
use crate::source::Spanned;
use crate::symbol::StringId;
use std::sync::Arc;
use vstd::prelude::*;

verus! {

/// Conversion environment.
///
/// This environment keeps track of the length of the local environment,
/// and the values of metavariable expressions, allowing for conversion.
pub struct ConversionEnv<'arena, 'env> {
    pub elim_env: ElimEnv<'arena, 'env>,
    pub local_exprs: EnvLen,
}

/// Whether two slices of labels hold the same labels in the same order.
fn labels_equal(labels0: &[StringId], labels1: &[StringId]) -> (equal: bool)
    ensures
        equal == (labels0@ == labels1@),
{
    if labels0.len() != labels1.len() {
        return false;
    }
    let mut i: usize = 0;
    while i < labels0.len()
        invariant
            i <= labels0.len(),
            labels0@.len() == labels1@.len(),
            forall|k: int| 0 <= k < i ==> labels0@[k] == labels1@[k],
        decreases labels0.len() - i,
    {
        if labels0[i] != labels1[i] {
            return false;
        }
        i = i + 1;
    }
    assert(labels0@ =~= labels1@);
    true
}

/// Whether a value is the sentinel for an error that has been reported.
fn is_reported_error<'arena>(value: &ArcValue<'arena>) -> (reported: bool)
    ensures
        reported == model::is_reported_error(value@),
{
    match &*value.inner {
        Value::Stuck(Head::Prim(Prim::ReportedError), _) => true,
        _ => false,
    }
}

impl<'arena, 'env> ElimEnv<'arena, 'env> {
    pub fn conversion_env(&self, local_exprs: EnvLen) -> (env: ConversionEnv<'arena, 'env>)
        ensures
            env == (ConversionEnv { elim_env: *self, local_exprs }),
    {
        ConversionEnv::new(*self, local_exprs)
    }
}

impl<'arena, 'env> ConversionEnv<'arena, 'env> {
    pub fn new(elim_env: ElimEnv<'arena, 'env>, local_exprs: EnvLen) -> (env: ConversionEnv<
        'arena,
        'env,
    >)
        ensures
            env == (ConversionEnv { elim_env, local_exprs }),
    {
        ConversionEnv { elim_env, local_exprs }
    }

    /// What comparing two values in this environment yields.
    pub open spec fn spec_is_equal(&self, fuel: nat, value0: ArcValueV, value1: ArcValueV) -> Result<
        bool,
        Stop,
    > {
        model::is_equal(fuel, self.elim_env@, self.local_exprs.0 as nat, value0, value1)
    }

    /// What comparing two closures in this environment yields.
    pub open spec fn spec_is_equal_closures(
        &self,
        fuel: nat,
        closure0: model::ClosureV,
        closure1: model::ClosureV,
    ) -> Result<bool, Stop> {
        model::is_equal_closures(
            fuel,
            self.elim_env@,
            self.local_exprs.0 as nat,
            closure0,
            closure1,
        )
    }

    /// What comparing two telescopes in this environment yields.
    pub open spec fn spec_is_equal_telescopes(
        &self,
        fuel: nat,
        telescope0: model::TelescopeV,
        telescope1: model::TelescopeV,
    ) -> Result<bool, Stop> {
        model::is_equal_telescopes(
            fuel,
            self.elim_env@,
            self.local_exprs.0 as nat,
            telescope0,
            telescope1,
        )
    }

    /// Check that one value is computationally equal to another value, in
    /// at most `fuel` nested steps.
    ///
    /// This is sometimes referred to as 'conversion checking', or checking
    /// for 'definitional equality'. Eta-conversion is performed here, if
    /// possible.
    pub fn is_equal(&mut self, value0: &ArcValue<'arena>, value1: &ArcValue<'arena>, fuel: usize) -> (result:
        Result<bool, Stop>)
        ensures
            *final(self) == *old(self),
            result == old(self).spec_is_equal(fuel as nat, value0@, value1@),
        decreases fuel, 0nat, 0nat,
    {
        if fuel == 0 {
            return Err(Stop::Limit);
        }
        let value0 = match self.elim_env.force(value0, fuel - 1) {
            Ok(value0) => value0,
            Err(stop) => {
                return Err(stop);
            },
        };
        let value1 = match self.elim_env.force(value1, fuel - 1) {
            Ok(value1) => value1,
            Err(stop) => {
                return Err(stop);
            },
        };
        self.is_equal_forced(&value0, &value1, fuel - 1)
    }

    /// Compares two values that have been forced.
    fn is_equal_forced(
        &mut self,
        value0: &ArcValue<'arena>,
        value1: &ArcValue<'arena>,
        fuel: usize,
    ) -> (result: Result<bool, Stop>)
        ensures
            *final(self) == *old(self),
            result == model::is_equal_forced(
                fuel as nat,
                old(self).elim_env@,
                old(self).local_exprs.0 as nat,
                value0@,
                value1@,
            ),
        decreases fuel, 6nat, 0nat,
    {
        // `ReportedError`s result from errors that have already been
        // reported, so we prevent them from triggering more errors.
        if is_reported_error(value0) || is_reported_error(value1) {
            return Ok(true);
        }
        match (&*value0.inner, &*value1.inner) {
            (Value::Stuck(head0, spine0), Value::Stuck(head1, spine1)) => {
                if *head0 == *head1 && spine0.len() == spine1.len() {
                    self.is_equal_spines(spine0, spine1, fuel)
                } else {
                    Ok(false)
                }
            },
            (Value::Universe, Value::Universe) => Ok(true),
            (
                Value::FunType(_, param_type0, body_type0),
                Value::FunType(_, param_type1, body_type1),
            ) => self.is_equal_bound(param_type0, body_type0, param_type1, body_type1, fuel),
            (Value::FunLit(_, body_expr0), Value::FunLit(_, body_expr1)) => {
                self.is_equal_closures(body_expr0, body_expr1, fuel)
            },
            (Value::FunLit(_, body_expr), _) => self.is_equal_fun_lit(body_expr, value1, fuel),
            (_, Value::FunLit(_, body_expr)) => self.is_equal_fun_lit(body_expr, value0, fuel),
            (Value::RecordType(labels0, types0), Value::RecordType(labels1, types1)) => {
                if labels_equal(labels0, labels1) {
                    self.is_equal_telescopes(types0, types1, fuel)
                } else {
                    Ok(false)
                }
            },
            (Value::RecordLit(labels0, exprs0), Value::RecordLit(labels1, exprs1)) => {
                if labels_equal(labels0, labels1) && exprs0.len() == exprs1.len() {
                    self.is_equal_all(exprs0, exprs1, fuel)
                } else {
                    Ok(false)
                }
            },
            (Value::RecordLit(labels, exprs), _) => self.is_equal_record_lit(
                labels,
                exprs,
                value1,
                fuel,
            ),
            (_, Value::RecordLit(labels, exprs)) => self.is_equal_record_lit(
                labels,
                exprs,
                value0,
                fuel,
            ),
            (Value::ArrayLit(exprs0), Value::ArrayLit(exprs1)) => {
                if exprs0.len() == exprs1.len() {
                    self.is_equal_all(exprs0, exprs1, fuel)
                } else {
                    Ok(false)
                }
            },
            (Value::FormatRecord(labels0, formats0), Value::FormatRecord(labels1, formats1)) => {
                if labels_equal(labels0, labels1) {
                    self.is_equal_telescopes(formats0, formats1, fuel)
                } else {
                    Ok(false)
                }
            },
            (Value::FormatOverlap(labels0, formats0), Value::FormatOverlap(labels1, formats1)) => {
                if labels_equal(labels0, labels1) {
                    self.is_equal_telescopes(formats0, formats1, fuel)
                } else {
                    Ok(false)
                }
            },
            (
                Value::FormatCond(label0, format0, cond0),
                Value::FormatCond(label1, format1, cond1),
            ) => {
                if *label0 == *label1 {
                    self.is_equal_bound(format0, cond0, format1, cond1, fuel)
                } else {
                    Ok(false)
                }
            },
            (Value::ConstLit(const0), Value::ConstLit(const1)) => Ok(*const0 == *const1),
            (_, _) => Ok(false),
        }
    }

    /// Compares two values, and two closures that bind what the values are
    /// the types or the formats of.
    fn is_equal_bound(
        &mut self,
        value0: &ArcValue<'arena>,
        closure0: &Closure<'arena>,
        value1: &ArcValue<'arena>,
        closure1: &Closure<'arena>,
        fuel: usize,
    ) -> (result: Result<bool, Stop>)
        ensures
            *final(self) == *old(self),
            result == model::and_also(
                old(self).spec_is_equal(fuel as nat, value0@, value1@),
                old(self).spec_is_equal_closures(fuel as nat, closure0@, closure1@),
            ),
        decreases fuel, 3nat, 0nat,
    {
        match self.is_equal(value0, value1, fuel) {
            Ok(true) => self.is_equal_closures(closure0, closure1, fuel),
            Ok(false) => Ok(false),
            Err(stop) => Err(stop),
        }
    }

    /// Compares two eliminations.
    fn is_equal_elims(&mut self, elim0: &Elim<'arena>, elim1: &Elim<'arena>, fuel: usize) -> (result:
        Result<bool, Stop>)
        ensures
            *final(self) == *old(self),
            result == model::is_equal_elims(
                fuel as nat,
                old(self).elim_env@,
                old(self).local_exprs.0 as nat,
                elim0@,
                elim1@,
            ),
        decreases fuel, 4nat, 0nat,
    {
        match (elim0, elim1) {
            (Elim::FunApp(expr0), Elim::FunApp(expr1)) => self.is_equal(expr0, expr1, fuel),
            (Elim::RecordProj(label0), Elim::RecordProj(label1)) => Ok(*label0 == *label1),
            (Elim::ConstMatch(branches0), Elim::ConstMatch(branches1)) => {
                self.is_equal_branches(branches0.clone(), branches1.clone(), fuel)
            },
            (_, _) => Ok(false),
        }
    }

    /// Compares two spines of one length.
    fn is_equal_spines(
        &mut self,
        spine0: &Vec<Elim<'arena>>,
        spine1: &Vec<Elim<'arena>>,
        fuel: usize,
    ) -> (result: Result<bool, Stop>)
        requires
            spine0@.len() == spine1@.len(),
        ensures
            *final(self) == *old(self),
            result == model::is_equal_spines(
                fuel as nat,
                old(self).elim_env@,
                old(self).local_exprs.0 as nat,
                spine_view(spine0@),
                spine_view(spine1@),
                0,
            ),
        decreases fuel, 5nat, 0nat,
    {
        let mut i: usize = 0;
        while i < spine0.len()
            invariant
                i <= spine0.len(),
                spine0@.len() == spine1@.len(),
                *self == *old(self),
                model::is_equal_spines(
                    fuel as nat,
                    self.elim_env@,
                    self.local_exprs.0 as nat,
                    spine_view(spine0@),
                    spine_view(spine1@),
                    0,
                ) == model::is_equal_spines(
                    fuel as nat,
                    self.elim_env@,
                    self.local_exprs.0 as nat,
                    spine_view(spine0@),
                    spine_view(spine1@),
                    i as int,
                ),
            decreases spine0.len() - i,
        {
            match self.is_equal_elims(&spine0[i], &spine1[i], fuel) {
                Ok(true) => {},
                Ok(false) => {
                    return Ok(false);
                },
                Err(stop) => {
                    return Err(stop);
                },
            }
            i = i + 1;
        }
        Ok(true)
    }

    /// Compares two sequences of values of one length.
    fn is_equal_all(
        &mut self,
        exprs0: &Vec<ArcValue<'arena>>,
        exprs1: &Vec<ArcValue<'arena>>,
        fuel: usize,
    ) -> (result: Result<bool, Stop>)
        requires
            exprs0@.len() == exprs1@.len(),
        ensures
            *final(self) == *old(self),
            result == model::is_equal_all(
                fuel as nat,
                old(self).elim_env@,
                old(self).local_exprs.0 as nat,
                values_view(exprs0@),
                values_view(exprs1@),
                0,
            ),
        decreases fuel, 1nat, 0nat,
    {
        let mut i: usize = 0;
        while i < exprs0.len()
            invariant
                i <= exprs0.len(),
                exprs0@.len() == exprs1@.len(),
                *self == *old(self),
                model::is_equal_all(
                    fuel as nat,
                    self.elim_env@,
                    self.local_exprs.0 as nat,
                    values_view(exprs0@),
                    values_view(exprs1@),
                    0,
                ) == model::is_equal_all(
                    fuel as nat,
                    self.elim_env@,
                    self.local_exprs.0 as nat,
                    values_view(exprs0@),
                    values_view(exprs1@),
                    i as int,
                ),
            decreases exprs0.len() - i,
        {
            match self.is_equal(&exprs0[i], &exprs1[i], fuel) {
                Ok(true) => {},
                Ok(false) => {
                    return Ok(false);
                },
                Err(stop) => {
                    return Err(stop);
                },
            }
            i = i + 1;
        }
        Ok(true)
    }

    /// A fresh variable for the parameter of a binder.
    fn fresh_var(&self) -> (var: ArcValue<'arena>)
        ensures
            var@ == model::fresh_var(self.local_exprs.0 as nat),
    {
        Spanned::empty(Arc::new(Value::local_var(self.local_exprs.next_level())))
    }

    /// Compares two values under one more binding.
    fn is_equal_under(&mut self, value0: &ArcValue<'arena>, value1: &ArcValue<'arena>, fuel: usize) -> (result:
        Result<bool, Stop>)
        ensures
            *final(self) == *old(self),
            result == (if old(self).local_exprs.0 < model::max_len() {
                model::is_equal(
                    fuel as nat,
                    old(self).elim_env@,
                    (old(self).local_exprs.0 + 1) as nat,
                    value0@,
                    value1@,
                )
            } else {
                Err(Stop::Limit)
            }),
        decreases fuel, 1nat, 0nat,
    {
        if self.local_exprs.is_full() {
            return Err(Stop::Limit);
        }
        self.local_exprs.push();
        let result = self.is_equal(value0, value1, fuel);
        self.local_exprs.pop();
        result
    }

    /// Check that two closures are equal.
    pub fn is_equal_closures(
        &mut self,
        closure0: &Closure<'arena>,
        closure1: &Closure<'arena>,
        fuel: usize,
    ) -> (result: Result<bool, Stop>)
        ensures
            *final(self) == *old(self),
            result == old(self).spec_is_equal_closures(fuel as nat, closure0@, closure1@),
        decreases fuel, 2nat, 0nat,
    {
        let value0 = match self.elim_env.apply_closure(closure0, self.fresh_var(), fuel) {
            Ok(value0) => value0,
            Err(stop) => {
                return Err(stop);
            },
        };
        let value1 = match self.elim_env.apply_closure(closure1, self.fresh_var(), fuel) {
            Ok(value1) => value1,
            Err(stop) => {
                return Err(stop);
            },
        };
        self.is_equal_under(&value0, &value1, fuel)
    }

    /// Check that two telescopes are equal.
    pub fn is_equal_telescopes(
        &mut self,
        telescope0: &Telescope<'arena>,
        telescope1: &Telescope<'arena>,
        fuel: usize,
    ) -> (result: Result<bool, Stop>)
        ensures
            *final(self) == *old(self),
            result == old(self).spec_is_equal_telescopes(fuel as nat, telescope0@, telescope1@),
        decreases fuel, 4nat, 0nat,
    {
        if telescope0.len() != telescope1.len() {
            return Ok(false);
        }
        self.is_equal_values(telescope0.clone(), telescope1.clone(), fuel)
    }

    /// Compares the values of two telescopes pair by pair.
    fn is_equal_values(
        &mut self,
        telescope0: Telescope<'arena>,
        telescope1: Telescope<'arena>,
        fuel: usize,
    ) -> (result: Result<bool, Stop>)
        ensures
            *final(self) == *old(self),
            result == model::is_equal_values(
                fuel as nat,
                old(self).elim_env@,
                old(self).local_exprs.0 as nat,
                telescope0@,
                telescope1@,
            ),
        decreases fuel, 3nat, telescope0@.terms.len(),
    {
        let split0 = match self.elim_env.split_telescope(telescope0, fuel) {
            Ok(split0) => split0,
            Err(stop) => {
                return Err(stop);
            },
        };
        let split1 = match self.elim_env.split_telescope(telescope1, fuel) {
            Ok(split1) => split1,
            Err(stop) => {
                return Err(stop);
            },
        };
        match (split0, split1) {
            (Some((value0, next_telescope0)), Some((value1, next_telescope1))) => {
                match self.is_equal(&value0, &value1, fuel) {
                    Ok(true) => {},
                    Ok(false) => {
                        return Ok(false);
                    },
                    Err(stop) => {
                        return Err(stop);
                    },
                }
                if self.local_exprs.is_full() {
                    return Err(Stop::Limit);
                }
                let telescope0 = next_telescope0.resume(self.fresh_var());
                let telescope1 = next_telescope1.resume(self.fresh_var());
                self.local_exprs.push();
                let result = self.is_equal_values(telescope0, telescope1, fuel);
                self.local_exprs.pop();
                result
            },
            (_, _) => Ok(true),
        }
    }

    /// Check that two constant branches are equal.
    fn is_equal_branches(
        &mut self,
        branches0: Branches<'arena>,
        branches1: Branches<'arena>,
        fuel: usize,
    ) -> (result: Result<bool, Stop>)
        ensures
            *final(self) == *old(self),
            result == model::is_equal_branches(
                fuel as nat,
                old(self).elim_env@,
                old(self).local_exprs.0 as nat,
                branches0@,
                branches1@,
            ),
        decreases fuel, 3nat, branches0@.pattern_branches.len(),
    {
        let split0 = match self.elim_env.split_branches(branches0, fuel) {
            Ok(split0) => split0,
            Err(stop) => {
                return Err(stop);
            },
        };
        let split1 = match self.elim_env.split_branches(branches1, fuel) {
            Ok(split1) => split1,
            Err(stop) => {
                return Err(stop);
            },
        };
        match (split0, split1) {
            (
                SplitBranches::Branch((const0, body_expr0), next_branches0),
                SplitBranches::Branch((const1, body_expr1), next_branches1),
            ) => {
                if const0 == const1 {
                    match self.is_equal(&body_expr0, &body_expr1, fuel) {
                        Ok(true) => self.is_equal_branches(next_branches0, next_branches1, fuel),
                        Ok(false) => Ok(false),
                        Err(stop) => Err(stop),
                    }
                } else {
                    Ok(false)
                }
            },
            (SplitBranches::Default(default_expr0), SplitBranches::Default(default_expr1)) => {
                self.is_equal_closures(&default_expr0, &default_expr1, fuel)
            },
            (SplitBranches::End, SplitBranches::End) => Ok(true),
            (_, _) => Ok(false),
        }
    }

    /// Check that a function literal is equal to a value, using
    /// eta-conversion.
    ///
    /// ```fathom
    /// (fun x => f x) = f
    /// ```
    fn is_equal_fun_lit(&mut self, body_expr: &Closure<'arena>, value: &ArcValue<'arena>, fuel: usize) -> (result:
        Result<bool, Stop>)
        ensures
            *final(self) == *old(self),
            result == model::is_equal_fun_lit(
                fuel as nat,
                old(self).elim_env@,
                old(self).local_exprs.0 as nat,
                body_expr@,
                value@,
            ),
        decreases fuel, 2nat, 0nat,
    {
        let value = match self.elim_env.fun_app(clone_value(value), self.fresh_var(), fuel) {
            Ok(value) => value,
            Err(stop) => {
                return Err(stop);
            },
        };
        let body_expr = match self.elim_env.apply_closure(body_expr, self.fresh_var(), fuel) {
            Ok(body_expr) => body_expr,
            Err(stop) => {
                return Err(stop);
            },
        };
        self.is_equal_under(&body_expr, &value, fuel)
    }

    /// Check that a record literal is equal to a value, using
    /// eta-conversion.
    ///
    /// ```fathom
    /// { x = r.x, y = r.y, .. } = r
    /// ```
    fn is_equal_record_lit(
        &mut self,
        labels: &[StringId],
        exprs: &Vec<ArcValue<'arena>>,
        value: &ArcValue<'arena>,
        fuel: usize,
    ) -> (result: Result<bool, Stop>)
        ensures
            *final(self) == *old(self),
            result == model::is_equal_record_lit(
                fuel as nat,
                old(self).elim_env@,
                old(self).local_exprs.0 as nat,
                labels@,
                values_view(exprs@),
                value@,
                0,
            ),
        decreases fuel, 1nat, 0nat,
    {
        let mut i: usize = 0;
        while i < labels.len() && i < exprs.len()
            invariant
                *self == *old(self),
                model::is_equal_record_lit(
                    fuel as nat,
                    self.elim_env@,
                    self.local_exprs.0 as nat,
                    labels@,
                    values_view(exprs@),
                    value@,
                    0,
                ) == model::is_equal_record_lit(
                    fuel as nat,
                    self.elim_env@,
                    self.local_exprs.0 as nat,
                    labels@,
                    values_view(exprs@),
                    value@,
                    i as int,
                ),
            decreases labels.len() - i,
        {
            let field_value = match self.elim_env.record_proj(clone_value(value), labels[i]) {
                Ok(field_value) => field_value,
                Err(stop) => {
                    return Err(stop);
                },
            };
            match self.is_equal(&exprs[i], &field_value, fuel) {
                Ok(true) => {},
                Ok(false) => {
                    return Ok(false);
                },
                Err(stop) => {
                    return Err(stop);
                },
            }
            i = i + 1;
        }
        Ok(true)
    }
}

} // verus!
